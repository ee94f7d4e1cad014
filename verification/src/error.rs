//! The ways in which reading a font can fail.

use vstd::prelude::*;

verus! {

/// Why a font, a table or a glyph could not be read.
#[derive(Clone, Copy, Debug, PartialEq, Eq, Structural)]
pub enum FontError {
    /// A cursor was asked to read or to move past the end of its buffer.
    OutOfBounds,
    /// The buffer is shorter than the header and table directory it starts with.
    MalformedHeader,
    /// A table tag holds a byte outside the ASCII range.
    InvalidTag,
    /// The table directory lacks the table with this tag.
    MissingTable(u32),
    /// The glyph location table places a glyph past the end of the buffer.
    GlyphOffsetOutOfRange,
    /// A glyph record runs past the end of the buffer.
    TruncatedGlyph,
    /// A glyph record breaks a rule of the format: it has no contour, or its
    /// contour end indices do not strictly increase.
    MalformedGlyph,
}

} // verus!
