//! The flag bytes of a simple glyph: their bits and their run-length coding.

use crate::cursor::ByteCursor;
use crate::error::FontError;
use vstd::prelude::*;

verus! {

/// Bit of a flag byte: the point lies on the curve.
pub const ON_CURVE_POINT: u8 = 0;

/// Bit of a flag byte: the x delta is one unsigned byte.
pub const X_SHORT_VECTOR: u8 = 1;

/// Bit of a flag byte: the y delta is one unsigned byte.
pub const Y_SHORT_VECTOR: u8 = 2;

/// Bit of a flag byte: the next byte counts further copies of this flag.
pub const REPEAT_FLAG: u8 = 3;

/// Bit of a flag byte: the sign of a short x delta, or "x is unchanged".
pub const X_SAME_OR_POSITIVE: u8 = 4;

/// Bit of a flag byte: the sign of a short y delta, or "y is unchanged".
pub const Y_SAME_OR_POSITIVE: u8 = 5;

/// Whether bit `index` of `flag` is set, bit 0 being the lowest. A byte has
/// no bit 8 or higher.
pub open spec fn bit_set(flag: u8, index: u8) -> bool {
    index < 8 && (flag >> index) & 1 == 1
}

/// Tests bit `flag_bit_index` of `flag`.
pub fn bit_is_set(flag: u8, flag_bit_index: u8) -> (set: bool)
    ensures
        set == bit_set(flag, flag_bit_index),
{
    flag_bit_index < 8 && ((flag >> flag_bit_index) & 1) == 1
}

/// `prefix` put in front of the flags of `rest`, where there are any.
pub open spec fn with_prefix(prefix: Seq<u8>, rest: Option<(Seq<u8>, int)>) -> Option<
    (Seq<u8>, int),
> {
    match rest {
        Some((flags, end)) => Some((prefix + flags, end)),
        None => None,
    }
}

/// The number of bytes that a flag takes in the stream: itself, and its
/// repeat count where it announces one.
pub open spec fn run_width(flag: u8) -> int {
    if bit_set(flag, REPEAT_FLAG) {
        2
    } else {
        1
    }
}

/// The number of points that the flag at `s[at]` stands for: one, and as
/// many more as its repeat count says.
pub open spec fn run_points(s: Seq<u8>, at: int) -> int {
    if bit_set(s[at], REPEAT_FLAG) {
        s[at + 1] as int + 1
    } else {
        1
    }
}

/// The flags of `count` points as the run-length coded stream at `s[at]`
/// gives them, with the position behind the last byte used, or `None` where
/// the stream ends before all of them are told.
///
/// A flag with the repeat bit stands for itself and for as many further
/// copies as the byte after it says. A run that tells more points than are
/// still wanted is cut at `count`.
pub open spec fn expand_flags(s: Seq<u8>, at: int, count: nat) -> Option<(Seq<u8>, int)>
    decreases count,
{
    if count == 0 {
        Some((Seq::<u8>::empty(), at))
    } else if at < 0 || at + run_width(s[at]) > s.len() {
        None
    } else {
        let run = if run_points(s, at) < count {
            run_points(s, at)
        } else {
            count as int
        };
        with_prefix(
            Seq::new(run as nat, |i: int| s[at]),
            expand_flags(s, at + run_width(s[at]), (count - run) as nat),
        )
    }
}

/// Run-length expansion. A flag byte with the repeat bit, followed by the
/// count `n`, gives `n + 1` equal flags where that many points are still
/// wanted, and the stream goes on behind the count.
pub proof fn lemma_repeat_expands(s: Seq<u8>, at: int, count: nat)
    requires
        0 <= at,
        at + 2 <= s.len(),
        bit_set(s[at], REPEAT_FLAG),
        s[at + 1] as int + 1 <= count,
    ensures
        expand_flags(s, at, count) == with_prefix(
            Seq::new((s[at + 1] as int + 1) as nat, |i: int| s[at]),
            expand_flags(s, at + 2, (count - (s[at + 1] as int + 1)) as nat),
        ),
{
}

/// Where the stream holds the flags of `count` points, it gives exactly
/// `count` of them, and ends within the buffer behind where it began.
pub proof fn lemma_expand_flags_len(s: Seq<u8>, at: int, count: nat)
    requires
        0 <= at <= s.len(),
    ensures
        match expand_flags(s, at, count) {
            Some((flags, end)) => flags.len() == count && at <= end <= s.len(),
            None => true,
        },
    decreases count,
{
    if count > 0 && at + run_width(s[at]) <= s.len() {
        let run = if run_points(s, at) < count {
            run_points(s, at)
        } else {
            count as int
        };
        lemma_expand_flags_len(s, at + run_width(s[at]), (count - run) as nat);
    }
}

/// Reads the flags of `num_points` points, expanding repeated ones.
///
/// The read succeeds exactly when the stream at the cursor tells that many
/// flags before the buffer ends; it then leaves the cursor behind the last
/// byte used.
pub fn read_flags(cursor: &mut ByteCursor, num_points: usize) -> (r: Result<Vec<u8>, FontError>)
    ensures
        final(cursor).bytes() == old(cursor).bytes(),
        old(cursor).pos() <= final(cursor).pos(),
        match r {
            Ok(flags) => expand_flags(old(cursor).bytes(), old(cursor).pos(), num_points as nat)
                == Some((flags@, final(cursor).pos())),
            Err(e) => e == FontError::TruncatedGlyph && expand_flags(
                old(cursor).bytes(),
                old(cursor).pos(),
                num_points as nat,
            ) is None,
        },
{
    let ghost s = cursor.bytes();
    let ghost start = cursor.pos();
    let mut flags: Vec<u8> = Vec::new();
    proof {
        use_type_invariant(&*cursor);
        match expand_flags(s, start, num_points as nat) {
            Some((rest, end)) => {
                assert(flags@ + rest =~= rest);
            },
            None => {},
        }
    }
    while flags.len() < num_points
        invariant
            s == old(cursor).bytes(),
            start == old(cursor).pos(),
            cursor.bytes() == s,
            0 <= start <= cursor.pos() <= s.len(),
            flags@.len() <= num_points,
            expand_flags(s, start, num_points as nat) == with_prefix(
                flags@,
                expand_flags(s, cursor.pos(), (num_points - flags@.len()) as nat),
            ),
        decreases num_points - flags@.len(),
    {
        let ghost at = cursor.pos();
        let ghost before = flags@;
        let flag = match cursor.read_u8() {
            Ok(flag) => flag,
            Err(_) => {
                return Err(FontError::TruncatedGlyph);
            },
        };
        let mut run: usize = 1;
        if bit_is_set(flag, REPEAT_FLAG) {
            match cursor.read_u8() {
                Ok(count) => {
                    run = count as usize + 1;
                },
                Err(_) => {
                    return Err(FontError::TruncatedGlyph);
                },
            }
        }
        if run > num_points - flags.len() {
            run = num_points - flags.len();
        }
        let mut j: usize = 0;
        while j < run
            invariant
                j <= run,
                before.len() + run <= num_points,
                flags@ == before + Seq::new(j as nat, |i: int| flag),
            decreases run - j,
        {
            flags.push(flag);
            j = j + 1;
            assert(flags@ =~= before + Seq::new(j as nat, |i: int| flag));
        }
        proof {
            let rest = expand_flags(s, cursor.pos(), (num_points - flags@.len()) as nat);
            let run_flags = Seq::new(run as nat, |i: int| flag);
            assert(flag == s[at]);
            assert(cursor.pos() == at + run_width(s[at]));
            assert(run_flags =~= Seq::new(run as nat, |i: int| s[at]));
            assert(flags@.len() == before.len() + run);
            assert(expand_flags(s, at, (num_points - before.len()) as nat) == with_prefix(
                run_flags,
                rest,
            ));
            match rest {
                Some((tail, end)) => {
                    assert(before + (run_flags + tail) =~= (before + run_flags) + tail);
                },
                None => {},
            }
        }
    }
    Ok(flags)
}

} // verus!
