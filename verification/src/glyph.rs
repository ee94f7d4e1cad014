//! Simple glyph records: their layout in the `glyf` table and their decoding.

use crate::coords::deltas_len;
use crate::coords::get_coordinates;
use crate::coords::lemma_deltas_len_monotone;
use crate::coords::running_coord;
use crate::cursor::ByteCursor;
use crate::endian::be_i16;
use crate::endian::be_u16;
use crate::error::FontError;
use crate::flags::bit_is_set;
use crate::flags::bit_set;
use crate::flags::expand_flags;
use crate::flags::lemma_expand_flags_len;
use crate::flags::read_flags;
use crate::flags::ON_CURVE_POINT;
use vstd::prelude::*;

verus! {

/// A point of a glyph outline, in font design units.
#[derive(Clone, Copy, Debug, PartialEq, Eq, Structural)]
pub struct Point {
    pub x: i16,
    pub y: i16,
    pub on_curve: bool,
}

/// The outline of one glyph.
#[derive(Clone, Debug, PartialEq, Eq)]
pub enum GlyphOutline {
    /// Closed contours over a list of points. Contour `k` ends with the point
    /// at index `contour_end_indices[k]` and begins behind the end of contour
    /// `k - 1`, the first one at index 0.
    Simple { contour_end_indices: Vec<u16>, points: Vec<Point> },
    /// A glyph composed of other glyphs. It is recognised and not decoded.
    Compound,
    /// A glyph whose record could not be decoded, with the reason.
    Failed(FontError),
}

/// A glyph outline as a mathematical value.
pub enum OutlineView {
    Simple { contour_end_indices: Seq<u16>, points: Seq<Point> },
    Compound,
    Failed(FontError),
}

impl View for GlyphOutline {
    type V = OutlineView;

    open spec fn view(&self) -> OutlineView {
        match self {
            GlyphOutline::Simple { contour_end_indices, points } => OutlineView::Simple {
                contour_end_indices: contour_end_indices@,
                points: points@,
            },
            GlyphOutline::Compound => OutlineView::Compound,
            GlyphOutline::Failed(e) => OutlineView::Failed(*e),
        }
    }
}

/// Whether each element of `v` is greater than all those before it.
pub open spec fn strictly_increasing(v: Seq<u16>) -> bool {
    forall|i: int, j: int| 0 <= i < j < v.len() ==> v[i] < v[j]
}

impl OutlineView {
    /// What holds of every decoded outline. A simple outline has a contour,
    /// its contour end indices strictly increase, and the last of them is the
    /// index of its last point.
    pub open spec fn well_formed(self) -> bool {
        match self {
            OutlineView::Simple { contour_end_indices, points } => {
                &&& contour_end_indices.len() > 0
                &&& strictly_increasing(contour_end_indices)
                &&& points.len() == contour_end_indices.last() + 1
            },
            OutlineView::Compound => true,
            OutlineView::Failed(_) => true,
        }
    }
}

/// The contour count that the record at `s[start]` begins with. A negative
/// count marks a compound glyph.
pub open spec fn contour_count(s: Seq<u8>, start: int) -> int {
    be_i16(s, start)
}

/// The contour end indices of the simple glyph record at `s[start]`. They
/// follow the contour count and the eight bytes of the bounding box.
pub open spec fn contour_ends(s: Seq<u8>, start: int) -> Seq<u16> {
    Seq::new(contour_count(s, start) as nat, |k: int| be_u16(s, start + 10 + 2 * k) as u16)
}

/// The number of points of the simple glyph record at `s[start]`: its last
/// contour end index is the index of its last point.
pub open spec fn point_count(s: Seq<u8>, start: int) -> nat {
    (contour_ends(s, start).last() + 1) as nat
}

/// Where the instruction length of the record at `s[start]` is stored,
/// behind the contour end indices.
pub open spec fn instructions_at(s: Seq<u8>, start: int) -> int {
    start + 10 + 2 * contour_count(s, start)
}

/// Where the flags of the record at `s[start]` begin, behind the
/// instructions.
pub open spec fn flags_at(s: Seq<u8>, start: int) -> int {
    instructions_at(s, start) + 2 + be_u16(s, instructions_at(s, start))
}

/// The points that `flags` and the deltas at `s[xs_at]` describe: first all
/// x deltas, then all y deltas.
pub open spec fn points_of(s: Seq<u8>, xs_at: int, flags: Seq<u8>) -> Seq<Point> {
    let ys_at = xs_at + deltas_len(flags, true, flags.len() as int);
    Seq::new(
        flags.len(),
        |k: int|
            Point {
                x: running_coord(s, xs_at, flags, true, k + 1),
                y: running_coord(s, ys_at, flags, false, k + 1),
                on_curve: bit_set(flags[k], ON_CURVE_POINT),
            },
    )
}

/// What the glyph record at `s[start]` decodes to: the outline and the
/// position behind the last byte of the record that was read, or the reason
/// why it cannot be decoded.
///
/// A record that the buffer ends in the middle of is truncated. A record
/// is malformed where it is whole as far as its contour end indices go and
/// these are none, or do not strictly increase.
pub open spec fn decode_glyph(s: Seq<u8>, start: int) -> Result<(OutlineView, int), FontError> {
    if start < 0 || start + 2 > s.len() {
        Err(FontError::TruncatedGlyph)
    } else if contour_count(s, start) < 0 {
        Ok((OutlineView::Compound, start + 2))
    } else if instructions_at(s, start) > s.len() {
        Err(FontError::TruncatedGlyph)
    } else if contour_count(s, start) == 0 || !strictly_increasing(contour_ends(s, start)) {
        Err(FontError::MalformedGlyph)
    } else if instructions_at(s, start) + 2 > s.len() || flags_at(s, start) > s.len() {
        Err(FontError::TruncatedGlyph)
    } else {
        match expand_flags(s, flags_at(s, start), point_count(s, start)) {
            None => Err(FontError::TruncatedGlyph),
            Some((flags, xs_at)) => {
                let end = xs_at + deltas_len(flags, true, flags.len() as int) + deltas_len(
                    flags,
                    false,
                    flags.len() as int,
                );
                if end > s.len() {
                    Err(FontError::TruncatedGlyph)
                } else {
                    Ok(
                        (
                            OutlineView::Simple {
                                contour_end_indices: contour_ends(s, start),
                                points: points_of(s, xs_at, flags),
                            },
                            end,
                        ),
                    )
                }
            },
        }
    }
}

/// Every outline that a record decodes to is well formed, and the record
/// ends within the buffer, behind where it began.
pub proof fn lemma_decoded_outline_well_formed(s: Seq<u8>, start: int)
    ensures
        match decode_glyph(s, start) {
            Ok((outline, end)) => outline.well_formed() && start < end <= s.len(),
            Err(_) => true,
        },
{
    if decode_glyph(s, start) is Ok && contour_count(s, start) >= 0 {
        lemma_expand_flags_len(s, flags_at(s, start), point_count(s, start));
        match expand_flags(s, flags_at(s, start), point_count(s, start)) {
            Some((flags, _)) => {
                lemma_deltas_len_monotone(flags, true, 0, flags.len() as int);
                lemma_deltas_len_monotone(flags, false, 0, flags.len() as int);
            },
            None => {},
        }
    }
}

/// Whether each element of `v` is greater than the one before it, which is
/// to say that `v` strictly increases.
fn is_strictly_increasing(v: &Vec<u16>) -> (b: bool)
    ensures
        b == strictly_increasing(v@),
{
    let mut i: usize = 1;
    while i < v.len()
        invariant
            1 <= i,
            forall|a: int, b: int| 0 <= a < b < i && b < v@.len() ==> v@[a] < v@[b],
        decreases v@.len() - i,
    {
        if v[i - 1] >= v[i] {
            return false;
        }
        assert forall|a: int, b: int| 0 <= a < b < i + 1 && b < v@.len() implies v@[a] < v@[b] by {
            if b == i && a < i - 1 {
                assert(v@[a] < v@[i - 1]);
            }
        }
        i = i + 1;
    }
    true
}

/// Joins the coordinates of the two axes and the on-curve bits into points.
fn make_points(flags: &Vec<u8>, xs: &Vec<i16>, ys: &Vec<i16>) -> (points: Vec<Point>)
    requires
        xs@.len() == flags@.len(),
        ys@.len() == flags@.len(),
    ensures
        points@.len() == flags@.len(),
        forall|k: int|
            0 <= k < flags@.len() ==> points@[k] == (Point {
                x: xs@[k],
                y: ys@[k],
                on_curve: bit_set(flags@[k], ON_CURVE_POINT),
            }),
{
    let mut points: Vec<Point> = Vec::new();
    let mut k: usize = 0;
    while k < flags.len()
        invariant
            k <= flags@.len(),
            xs@.len() == flags@.len(),
            ys@.len() == flags@.len(),
            points@.len() == k,
            forall|j: int|
                0 <= j < k ==> points@[j] == (Point {
                    x: xs@[j],
                    y: ys@[j],
                    on_curve: bit_set(flags@[j], ON_CURVE_POINT),
                }),
        decreases flags@.len() - k,
    {
        points.push(Point { x: xs[k], y: ys[k], on_curve: bit_is_set(flags[k], ON_CURVE_POINT) });
        k = k + 1;
    }
    points
}

impl GlyphOutline {
    /// Tests whether the outline is well formed. Every decoded outline is; one
    /// put together by hand may not be.
    pub fn is_well_formed(&self) -> (b: bool)
        ensures
            b == self@.well_formed(),
    {
        match self {
            GlyphOutline::Simple { contour_end_indices, points } => {
                let count = contour_end_indices.len();
                count > 0 && is_strictly_increasing(contour_end_indices) && points.len()
                    == contour_end_indices[count - 1] as usize + 1
            },
            GlyphOutline::Compound => true,
            GlyphOutline::Failed(_) => true,
        }
    }

    /// Decodes the glyph record that begins at the cursor.
    ///
    /// The result is what [`decode_glyph`] says of the bytes at the cursor:
    /// a record with a negative contour count gives
    /// [`GlyphOutline::Compound`] after those two bytes alone; any other is
    /// decoded in full, and the cursor is left behind its last byte. A
    /// decoded outline is well formed. The cursor only moves forward.
    pub fn from_cursor(cursor: &mut ByteCursor) -> (r: Result<GlyphOutline, FontError>)
        ensures
            final(cursor).bytes() == old(cursor).bytes(),
            old(cursor).pos() <= final(cursor).pos(),
            old(cursor).has(2) && contour_count(old(cursor).bytes(), old(cursor).pos()) < 0 ==> {
                &&& r matches Ok(outline) && outline is Compound
                &&& final(cursor).pos() == old(cursor).pos() + 2
            },
            match r {
                Ok(outline) => {
                    &&& decode_glyph(old(cursor).bytes(), old(cursor).pos()) == Ok::<
                        (OutlineView, int),
                        FontError,
                    >((outline@, final(cursor).pos()))
                    &&& outline@.well_formed()
                    &&& !(outline is Failed)
                },
                Err(e) => decode_glyph(old(cursor).bytes(), old(cursor).pos()) == Err::<
                    (OutlineView, int),
                    FontError,
                >(e),
            },
    {
        let ghost s = cursor.bytes();
        let ghost start = cursor.pos();
        proof {
            use_type_invariant(&*cursor);
        }
        let count = match cursor.read_i16_be() {
            Ok(count) => count,
            Err(_) => {
                return Err(FontError::TruncatedGlyph);
            },
        };
        if count < 0 {
            return Ok(GlyphOutline::Compound);
        }
        if cursor.seek_relative(8).is_err() {
            return Err(FontError::TruncatedGlyph);
        }
        let mut contour_end_indices: Vec<u16> = Vec::new();
        let mut k: i16 = 0;
        while k < count
            invariant
                0 <= k <= count,
                count == contour_count(s, start),
                s == old(cursor).bytes(),
                start == old(cursor).pos(),
                0 <= start,
                cursor.bytes() == s,
                cursor.pos() == start + 10 + 2 * k,
                cursor.pos() <= s.len(),
                contour_end_indices@.len() == k,
                forall|j: int|
                    0 <= j < k ==> contour_end_indices@[j] == be_u16(s, start + 10 + 2 * j),
            decreases count - k,
        {
            match cursor.read_u16_be() {
                Ok(end) => {
                    contour_end_indices.push(end);
                },
                Err(_) => {
                    return Err(FontError::TruncatedGlyph);
                },
            }
            k = k + 1;
        }
        assert(contour_end_indices@ =~= contour_ends(s, start));
        if count == 0 || !is_strictly_increasing(&contour_end_indices) {
            return Err(FontError::MalformedGlyph);
        }
        let instruction_length = match cursor.read_u16_be() {
            Ok(length) => length,
            Err(_) => {
                return Err(FontError::TruncatedGlyph);
            },
        };
        if cursor.seek_relative(instruction_length as i64).is_err() {
            return Err(FontError::TruncatedGlyph);
        }
        let num_points = contour_end_indices[contour_end_indices.len() - 1] as usize + 1;
        let flags = match read_flags(cursor, num_points) {
            Ok(flags) => flags,
            Err(e) => {
                return Err(e);
            },
        };
        let ghost xs_at = cursor.pos();
        proof {
            lemma_deltas_len_monotone(flags@, true, 0, flags@.len() as int);
            lemma_deltas_len_monotone(flags@, false, 0, flags@.len() as int);
            lemma_decoded_outline_well_formed(s, start);
        }
        let xs = match get_coordinates(cursor, &flags, true) {
            Ok(xs) => xs,
            Err(e) => {
                return Err(e);
            },
        };
        let ys = match get_coordinates(cursor, &flags, false) {
            Ok(ys) => ys,
            Err(e) => {
                return Err(e);
            },
        };
        let points = make_points(&flags, &xs, &ys);
        assert(points@ =~= points_of(s, xs_at, flags@));
        Ok(GlyphOutline::Simple { contour_end_indices, points })
    }
}

} // verus!
