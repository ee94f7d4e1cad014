//! Where each glyph record lies: the `head`, `maxp` and `loca` tables.

use crate::cursor::ByteCursor;
use crate::endian::be_i16;
use crate::endian::be_u16;
use crate::endian::be_u32;
use crate::error::FontError;
use crate::tables::TableDirectory;
use crate::tables::TableEntry;
use crate::tables::TAG_GLYF;
use crate::tables::TAG_HEAD;
use crate::tables::TAG_LOCA;
use crate::tables::TAG_MAXP;
use vstd::prelude::*;

verus! {

/// Where the glyph count lies within the `maxp` table, behind its version.
pub const NUM_GLYPHS_AT: u64 = 4;

/// Where the format of the glyph location table lies within the `head`
/// table.
pub const INDEX_TO_LOC_FORMAT_AT: u64 = 50;

/// What is needed to find a glyph record: the number of glyphs, the format
/// of the glyph location table, and where that table and the outline table
/// begin.
#[derive(Clone, Copy, Debug, PartialEq, Eq, Structural)]
pub struct GlyphLocator {
    /// The number of glyphs in the font.
    pub num_glyphs: u16,
    /// Whether an entry of the location table is two bytes wide and holds
    /// half the offset. Otherwise it is four bytes wide and holds the offset.
    pub short_offsets: bool,
    /// Where the location table begins in the file.
    pub loca_offset: u32,
    /// Where the outline table begins in the file.
    pub glyf_offset: u32,
}

/// The first of the tables `head`, `maxp`, `loca` and `glyf`, in this order,
/// that the directory lacks.
pub open spec fn missing_table(tables: Map<u32, TableEntry>) -> Option<u32> {
    if !tables.contains_key(TAG_HEAD) {
        Some(TAG_HEAD)
    } else if !tables.contains_key(TAG_MAXP) {
        Some(TAG_MAXP)
    } else if !tables.contains_key(TAG_LOCA) {
        Some(TAG_LOCA)
    } else if !tables.contains_key(TAG_GLYF) {
        Some(TAG_GLYF)
    } else {
        None
    }
}

/// The locator that the tables of `s` give, or why there is none.
///
/// A table that the directory lacks is named as missing. The glyph count
/// and the location format must lie within the buffer.
pub open spec fn locator_of(s: Seq<u8>, tables: Map<u32, TableEntry>) -> Result<
    GlyphLocator,
    FontError,
> {
    if missing_table(tables) is Some {
        Err(FontError::MissingTable(missing_table(tables)->0))
    } else if tables[TAG_MAXP].offset + NUM_GLYPHS_AT + 2 > s.len() {
        Err(FontError::OutOfBounds)
    } else if tables[TAG_HEAD].offset + INDEX_TO_LOC_FORMAT_AT + 2 > s.len() {
        Err(FontError::OutOfBounds)
    } else {
        Ok(
            GlyphLocator {
                num_glyphs: be_u16(s, tables[TAG_MAXP].offset + NUM_GLYPHS_AT) as u16,
                short_offsets: be_i16(s, tables[TAG_HEAD].offset + INDEX_TO_LOC_FORMAT_AT) == 0,
                loca_offset: tables[TAG_LOCA].offset,
                glyf_offset: tables[TAG_GLYF].offset,
            },
        )
    }
}

/// Moves the cursor to `at`, where that lies within its buffer.
fn seek_to(cursor: &mut ByteCursor, at: u64) -> (r: Result<(), FontError>)
    ensures
        final(cursor).bytes() == old(cursor).bytes(),
        r is Ok <==> at <= old(cursor).bytes().len(),
        r is Ok ==> final(cursor).pos() == at,
        r is Err ==> r == Err::<(), FontError>(FontError::OutOfBounds),
{
    if at > cursor.len() as u64 {
        return Err(FontError::OutOfBounds);
    }
    cursor.seek_absolute(at as usize)
}

impl GlyphLocator {
    /// The width in bytes of an entry of the location table.
    pub open spec fn entry_width(self) -> int {
        if self.short_offsets {
            2
        } else {
            4
        }
    }

    /// Where the entry of glyph `index` lies in the file.
    pub open spec fn entry_at(self, index: int) -> int {
        if self.short_offsets {
            self.loca_offset + 2 * index
        } else {
            self.loca_offset + 4 * index
        }
    }

    /// The offset of glyph `index` within the outline table: a two-byte
    /// entry holds half of it, a four-byte entry all of it.
    pub open spec fn entry_value(self, s: Seq<u8>, index: int) -> int {
        if self.short_offsets {
            2 * be_u16(s, self.entry_at(index))
        } else {
            be_u32(s, self.entry_at(index))
        }
    }

    /// Whether the entry of glyph `index` lies within the buffer and places
    /// the record of that glyph beyond the end of the buffer.
    pub open spec fn points_past(self, s: Seq<u8>, index: int) -> bool {
        &&& self.entry_at(index) + self.entry_width() <= s.len()
        &&& self.glyf_offset + self.entry_value(s, index) > s.len()
    }

    /// Where the record of glyph `index` begins in the file, or why it
    /// cannot be found: its entry must lie within the buffer, and the
    /// record must not begin beyond the end of the buffer.
    pub open spec fn locate(self, s: Seq<u8>, index: int) -> Result<int, FontError> {
        if self.entry_at(index) + self.entry_width() > s.len() {
            Err(FontError::OutOfBounds)
        } else if self.glyf_offset + self.entry_value(s, index) > s.len() {
            Err(FontError::GlyphOffsetOutOfRange)
        } else {
            Ok(self.glyf_offset + self.entry_value(s, index))
        }
    }

    /// Looks up the four tables that glyph location needs, and reads the
    /// glyph count and the location format from the cursor's buffer.
    ///
    /// The result is what [`locator_of`] says of the buffer and the
    /// directory.
    pub fn new(directory: &TableDirectory, cursor: &mut ByteCursor) -> (r: Result<
        GlyphLocator,
        FontError,
    >)
        ensures
            final(cursor).bytes() == old(cursor).bytes(),
            r == locator_of(old(cursor).bytes(), directory@),
    {
        let head = match directory.require(TAG_HEAD) {
            Ok(entry) => entry,
            Err(e) => {
                return Err(e);
            },
        };
        let maxp = match directory.require(TAG_MAXP) {
            Ok(entry) => entry,
            Err(e) => {
                return Err(e);
            },
        };
        let loca = match directory.require(TAG_LOCA) {
            Ok(entry) => entry,
            Err(e) => {
                return Err(e);
            },
        };
        let glyf = match directory.require(TAG_GLYF) {
            Ok(entry) => entry,
            Err(e) => {
                return Err(e);
            },
        };
        if seek_to(cursor, maxp.offset as u64 + NUM_GLYPHS_AT).is_err() {
            return Err(FontError::OutOfBounds);
        }
        let num_glyphs = match cursor.read_u16_be() {
            Ok(count) => count,
            Err(e) => {
                return Err(e);
            },
        };
        if seek_to(cursor, head.offset as u64 + INDEX_TO_LOC_FORMAT_AT).is_err() {
            return Err(FontError::OutOfBounds);
        }
        let format = match cursor.read_i16_be() {
            Ok(format) => format,
            Err(e) => {
                return Err(e);
            },
        };
        Ok(
            GlyphLocator {
                num_glyphs,
                short_offsets: format == 0,
                loca_offset: loca.offset,
                glyf_offset: glyf.offset,
            },
        )
    }

    /// Reads the entry of glyph `index` from the location table and returns
    /// where the record of that glyph begins in the file.
    ///
    /// The result is what [`GlyphLocator::locate`] says: an offset that is
    /// returned lies within the buffer or at its end. The cursor is then
    /// left behind the entry. The index is not held against the glyph count:
    /// the entry behind that of the last glyph, which marks the end of the
    /// outline table, is read like any other.
    pub fn glyph_offset(&self, cursor: &mut ByteCursor, index: u16) -> (r: Result<
        usize,
        FontError,
    >)
        ensures
            final(cursor).bytes() == old(cursor).bytes(),
            r is Ok ==> r->Ok_0 <= old(cursor).bytes().len(),
            self.points_past(old(cursor).bytes(), index as int) ==> r == Err::<usize, FontError>(
                FontError::GlyphOffsetOutOfRange,
            ),
            match r {
                Ok(offset) => {
                    &&& self.locate(old(cursor).bytes(), index as int) == Ok::<int, FontError>(
                        offset as int,
                    )
                    &&& final(cursor).pos() == self.entry_at(index as int) + self.entry_width()
                },
                Err(e) => self.locate(old(cursor).bytes(), index as int) == Err::<
                    int,
                    FontError,
                >(e),
            },
    {
        let entry_at: u64 = if self.short_offsets {
            self.loca_offset as u64 + 2 * (index as u64)
        } else {
            self.loca_offset as u64 + 4 * (index as u64)
        };
        if seek_to(cursor, entry_at).is_err() {
            return Err(FontError::OutOfBounds);
        }
        let value: u64 = if self.short_offsets {
            match cursor.read_u16_be() {
                Ok(half) => 2 * (half as u64),
                Err(e) => {
                    return Err(e);
                },
            }
        } else {
            match cursor.read_u32_be() {
                Ok(whole) => whole as u64,
                Err(e) => {
                    return Err(e);
                },
            }
        };
        let offset: u64 = self.glyf_offset as u64 + value;
        if offset > cursor.len() as u64 {
            return Err(FontError::GlyphOffsetOutOfRange);
        }
        Ok(offset as usize)
    }
}

} // verus!
