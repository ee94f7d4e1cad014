//! The coordinates of a simple glyph: deltas from point to point, of one to
//! two bytes or none, that add up to absolute positions.

use crate::cursor::ByteCursor;
use crate::endian::be_i16;
use crate::error::FontError;
use crate::flags::bit_is_set;
use crate::flags::bit_set;
use crate::flags::X_SAME_OR_POSITIVE;
use crate::flags::X_SHORT_VECTOR;
use crate::flags::Y_SAME_OR_POSITIVE;
use crate::flags::Y_SHORT_VECTOR;
use vstd::prelude::*;

verus! {

/// Whether `flag` stores the delta of this axis in one unsigned byte.
pub open spec fn is_short(flag: u8, is_x: bool) -> bool {
    bit_set(
        flag,
        if is_x {
            X_SHORT_VECTOR
        } else {
            Y_SHORT_VECTOR
        },
    )
}

/// The second bit of `flag` for this axis. With a short delta it is the
/// sign, set for positive; without one it says that the coordinate repeats
/// that of the point before.
pub open spec fn is_same_or_positive(flag: u8, is_x: bool) -> bool {
    bit_set(
        flag,
        if is_x {
            X_SAME_OR_POSITIVE
        } else {
            Y_SAME_OR_POSITIVE
        },
    )
}

/// The number of bytes that the delta of a point with this flag takes.
pub open spec fn delta_width(flag: u8, is_x: bool) -> int {
    if is_short(flag, is_x) {
        1
    } else if is_same_or_positive(flag, is_x) {
        0
    } else {
        2
    }
}

/// The number of bytes that the deltas of the first `count` points take.
pub open spec fn deltas_len(flags: Seq<u8>, is_x: bool, count: int) -> int
    decreases count,
{
    if count <= 0 {
        0
    } else {
        deltas_len(flags, is_x, count - 1) + delta_width(flags[count - 1], is_x)
    }
}

/// The delta of point `k` on one axis, where the deltas of that axis start
/// at `s[base]`.
pub open spec fn delta_at(s: Seq<u8>, base: int, flags: Seq<u8>, is_x: bool, k: int) -> int {
    let at = base + deltas_len(flags, is_x, k);
    if is_short(flags[k], is_x) {
        if is_same_or_positive(flags[k], is_x) {
            s[at] as int
        } else {
            -(s[at] as int)
        }
    } else if is_same_or_positive(flags[k], is_x) {
        0
    } else {
        be_i16(s, at)
    }
}

/// `v` brought into the range of `i16` by one step of 65536, as a
/// two's-complement addition of two `i16` values wraps.
pub open spec fn wrap_i16(v: int) -> int {
    if v > i16::MAX {
        v - 0x1_0000
    } else if v < i16::MIN {
        v + 0x1_0000
    } else {
        v
    }
}

/// The running coordinate after the first `count` points: it starts at 0,
/// and each point adds its delta, wrapping in 16 bits.
pub open spec fn running_coord(
    s: Seq<u8>,
    base: int,
    flags: Seq<u8>,
    is_x: bool,
    count: int,
) -> i16
    decreases count,
{
    if count <= 0 {
        0i16
    } else {
        wrap_i16(
            running_coord(s, base, flags, is_x, count - 1) + delta_at(
                s,
                base,
                flags,
                is_x,
                count - 1,
            ),
        ) as i16
    }
}

/// The absolute coordinates of all points on one axis: point `k` has the
/// running coordinate that includes its own delta.
pub open spec fn coordinates(s: Seq<u8>, base: int, flags: Seq<u8>, is_x: bool) -> Seq<i16> {
    Seq::new(flags.len(), |k: int| running_coord(s, base, flags, is_x, k + 1))
}

/// The sum of the deltas of the first `count` points on one axis.
pub open spec fn delta_sum(s: Seq<u8>, base: int, flags: Seq<u8>, is_x: bool, count: int) -> int
    decreases count,
{
    if count <= 0 {
        0
    } else {
        delta_sum(s, base, flags, is_x, count - 1) + delta_at(s, base, flags, is_x, count - 1)
    }
}

/// Absolute coordinates are cumulative sums. Where the sums of the deltas
/// up to each point fit in 16 bits, the coordinate of every point is the sum
/// of the deltas up to it, its own included.
pub proof fn lemma_coordinates_are_cumulative_sums(
    s: Seq<u8>,
    base: int,
    flags: Seq<u8>,
    is_x: bool,
)
    requires
        forall|k: int|
            0 <= k < flags.len() ==> i16::MIN <= #[trigger] delta_sum(s, base, flags, is_x, k + 1)
                <= i16::MAX,
    ensures
        forall|k: int|
            0 <= k < flags.len() ==> #[trigger] coordinates(s, base, flags, is_x)[k] == delta_sum(
                s,
                base,
                flags,
                is_x,
                k + 1,
            ),
{
    assert forall|k: int| 0 <= k < flags.len() implies #[trigger] coordinates(
        s,
        base,
        flags,
        is_x,
    )[k] == delta_sum(s, base, flags, is_x, k + 1) by {
        lemma_running_coord_is_sum(s, base, flags, is_x, k + 1);
    }
}

/// The running coordinate after `count` points is the sum of their deltas,
/// where the sums after each of these points fit in 16 bits.
proof fn lemma_running_coord_is_sum(s: Seq<u8>, base: int, flags: Seq<u8>, is_x: bool, count: int)
    requires
        count <= flags.len(),
        forall|k: int|
            0 <= k < flags.len() ==> i16::MIN <= #[trigger] delta_sum(s, base, flags, is_x, k + 1)
                <= i16::MAX,
    ensures
        running_coord(s, base, flags, is_x, count) == delta_sum(s, base, flags, is_x, count),
    decreases count,
{
    if count > 0 {
        lemma_running_coord_is_sum(s, base, flags, is_x, count - 1);
        assert(i16::MIN <= delta_sum(s, base, flags, is_x, (count - 1) + 1) <= i16::MAX);
    }
}

/// The deltas of more points never take fewer bytes.
pub proof fn lemma_deltas_len_monotone(flags: Seq<u8>, is_x: bool, i: int, j: int)
    requires
        i <= j,
    ensures
        0 <= deltas_len(flags, is_x, i) <= deltas_len(flags, is_x, j),
    decreases j,
{
    if j <= 0 {
    } else if i < j {
        lemma_deltas_len_monotone(flags, is_x, i, j - 1);
    } else {
        lemma_deltas_len_monotone(flags, is_x, i - 1, j - 1);
    }
}

/// Adds a delta to a running coordinate, wrapping in 16 bits.
fn add_delta(current: i16, delta: i16) -> (sum: i16)
    ensures
        sum == wrap_i16(current + delta),
{
    current.wrapping_add(delta)
}

/// Reads the deltas of one axis, one for each flag, and returns the absolute
/// coordinates that they add up to.
///
/// The read succeeds exactly when the buffer holds all the bytes that the
/// flags call for; it then leaves the cursor behind the last of them.
pub fn get_coordinates(cursor: &mut ByteCursor, flags: &Vec<u8>, is_x: bool) -> (r: Result<
    Vec<i16>,
    FontError,
>)
    ensures
        final(cursor).bytes() == old(cursor).bytes(),
        old(cursor).pos() <= final(cursor).pos(),
        r is Ok <==> old(cursor).has(deltas_len(flags@, is_x, flags@.len() as int)),
        match r {
            Ok(coords) => {
                &&& coords@ == coordinates(old(cursor).bytes(), old(cursor).pos(), flags@, is_x)
                &&& final(cursor).pos() == old(cursor).pos() + deltas_len(
                    flags@,
                    is_x,
                    flags@.len() as int,
                )
            },
            Err(e) => e == FontError::TruncatedGlyph,
        },
{
    let ghost s = cursor.bytes();
    let ghost base = cursor.pos();
    let n = flags.len();
    let mut coords: Vec<i16> = Vec::new();
    let mut current: i16 = 0;
    let mut i: usize = 0;
    proof {
        use_type_invariant(&*cursor);
    }
    while i < n
        invariant
            i <= n,
            n == flags@.len(),
            s == old(cursor).bytes(),
            base == old(cursor).pos(),
            cursor.bytes() == s,
            cursor.pos() == base + deltas_len(flags@, is_x, i as int),
            base <= cursor.pos() <= s.len(),
            coords@.len() == i,
            forall|k: int| 0 <= k < i ==> coords@[k] == running_coord(s, base, flags@, is_x, k + 1),
            current == running_coord(s, base, flags@, is_x, i as int),
        decreases n - i,
    {
        let flag = flags[i];
        let short = bit_is_set(
            flag,
            if is_x {
                X_SHORT_VECTOR
            } else {
                Y_SHORT_VECTOR
            },
        );
        let same_or_positive = bit_is_set(
            flag,
            if is_x {
                X_SAME_OR_POSITIVE
            } else {
                Y_SAME_OR_POSITIVE
            },
        );
        proof {
            lemma_deltas_len_monotone(flags@, is_x, i + 1, n as int);
        }
        let delta: i16 = if short {
            match cursor.read_u8() {
                Ok(magnitude) => if same_or_positive {
                    magnitude as i16
                } else {
                    -(magnitude as i16)
                },
                Err(_) => {
                    return Err(FontError::TruncatedGlyph);
                },
            }
        } else if same_or_positive {
            0
        } else {
            match cursor.read_i16_be() {
                Ok(value) => value,
                Err(_) => {
                    return Err(FontError::TruncatedGlyph);
                },
            }
        };
        current = add_delta(current, delta);
        coords.push(current);
        i = i + 1;
    }
    assert(coords@ =~= coordinates(s, base, flags@, is_x));
    Ok(coords)
}

} // verus!
