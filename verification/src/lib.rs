//! Glyph outlines from TrueType font data.
//!
//! The crate reads the table directory of an sfnt container, resolves the
//! byte offset of each glyph through the `head`, `maxp` and `loca` tables,
//! and decodes simple glyph records of the `glyf` table into contours of
//! on-curve and off-curve points. Its functions are verified against a
//! model of the file format stated over the raw bytes. Only the big-endian
//! reads of two and four bytes, which the `byteorder` crate does, are
//! taken on trust.

pub mod coords;
pub mod cursor;
pub mod endian;
pub mod error;
pub mod flags;
pub mod font;
pub mod glyph;
pub mod locator;
pub mod tables;

pub use crate::cursor::ByteCursor;
pub use crate::error::FontError;
pub use crate::font::Font;
pub use crate::glyph::GlyphOutline;
pub use crate::glyph::Point;
pub use crate::locator::GlyphLocator;
pub use crate::tables::TableDirectory;
pub use crate::tables::TableEntry;
