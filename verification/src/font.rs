//! A whole font: its table directory and the outlines of its glyphs.

use crate::cursor::ByteCursor;
use crate::error::FontError;
use crate::glyph::decode_glyph;
use crate::glyph::lemma_decoded_outline_well_formed;
use crate::glyph::GlyphOutline;
use crate::glyph::OutlineView;
use crate::locator::locator_of;
use crate::locator::GlyphLocator;
use crate::tables::parse_directory;
use crate::tables::TableDirectory;
use crate::tables::TableEntry;
use vstd::prelude::*;

verus! {

/// The tables of a font file and the outline of each of its glyphs.
#[derive(Clone, Debug)]
pub struct Font {
    /// The table directory of the file.
    pub tables: TableDirectory,
    /// The outlines, one for each glyph index. A glyph that could not be
    /// found or decoded is there as [`GlyphOutline::Failed`].
    pub glyphs: Vec<GlyphOutline>,
}

/// A font as a mathematical value.
pub struct FontView {
    pub tables: Map<u32, TableEntry>,
    pub glyphs: Seq<OutlineView>,
}

impl View for Font {
    type V = FontView;

    open spec fn view(&self) -> FontView {
        FontView {
            tables: self.tables@,
            glyphs: Seq::new(self.glyphs@.len(), |i: int| self.glyphs@[i]@),
        }
    }
}

/// The outline of glyph `index` of the file `s`. A glyph whose record
/// cannot be found, or cannot be decoded, is a failed outline that holds
/// the reason.
pub open spec fn glyph_of(s: Seq<u8>, locator: GlyphLocator, index: int) -> OutlineView {
    match locator.locate(s, index) {
        Err(e) => OutlineView::Failed(e),
        Ok(offset) => match decode_glyph(s, offset) {
            Ok((outline, _)) => outline,
            Err(e) => OutlineView::Failed(e),
        },
    }
}

/// The font that the file `s` holds, or why it holds none.
///
/// There is no font without a table directory and the tables that glyph
/// location needs. With them there is one, which has an outline for each
/// glyph index below the glyph count.
pub open spec fn font_of(s: Seq<u8>) -> Result<FontView, FontError> {
    match parse_directory(s) {
        Err(e) => Err(e),
        Ok(tables) => match locator_of(s, tables) {
            Err(e) => Err(e),
            Ok(locator) => Ok(
                FontView {
                    tables,
                    glyphs: Seq::new(
                        locator.num_glyphs as nat,
                        |i: int| glyph_of(s, locator, i),
                    ),
                },
            ),
        },
    }
}

/// Every outline of a font is well formed, and there is one for each glyph
/// that the `maxp` table counts.
pub proof fn lemma_font_outlines_well_formed(s: Seq<u8>)
    ensures
        match font_of(s) {
            Ok(font) => {
                &&& font.glyphs.len() == locator_of(s, font.tables)->Ok_0.num_glyphs
                &&& forall|i: int|
                    0 <= i < font.glyphs.len() ==> (#[trigger] font.glyphs[i]).well_formed()
            },
            Err(_) => true,
        },
{
    match font_of(s) {
        Ok(font) => {
            let locator = locator_of(s, font.tables)->Ok_0;
            assert forall|i: int| 0 <= i < font.glyphs.len() implies (#[trigger] font.glyphs[i])
                .well_formed() by {
                match locator.locate(s, i) {
                    Ok(offset) => {
                        lemma_decoded_outline_well_formed(s, offset);
                    },
                    Err(_) => {},
                }
            }
        },
        Err(_) => {},
    }
}

/// The failed outlines among the first `count` of `glyphs`, each with its
/// glyph index, in the order of the indices.
pub open spec fn failures_of(glyphs: Seq<OutlineView>, count: int) -> Seq<(usize, FontError)>
    decreases count,
{
    if count <= 0 {
        Seq::empty()
    } else {
        match glyphs[count - 1] {
            OutlineView::Failed(e) => failures_of(glyphs, count - 1).push(
                ((count - 1) as usize, e),
            ),
            _ => failures_of(glyphs, count - 1),
        }
    }
}

/// Finds and decodes the record of glyph `index`. What goes wrong on the
/// way is returned as a failed outline.
pub fn load_glyph(locator: &GlyphLocator, cursor: &mut ByteCursor, index: u16) -> (outline:
    GlyphOutline)
    ensures
        final(cursor).bytes() == old(cursor).bytes(),
        outline@ == glyph_of(old(cursor).bytes(), *locator, index as int),
        outline@.well_formed(),
{
    let offset = match locator.glyph_offset(cursor, index) {
        Ok(offset) => offset,
        Err(e) => {
            return GlyphOutline::Failed(e);
        },
    };
    if cursor.seek_absolute(offset).is_err() {
        return GlyphOutline::Failed(FontError::GlyphOffsetOutOfRange);
    }
    match GlyphOutline::from_cursor(cursor) {
        Ok(outline) => outline,
        Err(e) => GlyphOutline::Failed(e),
    }
}

impl Font {
    /// Reads a font from the bytes of a TrueType file.
    ///
    /// The result is what [`font_of`] says of the bytes: an error where the
    /// table directory or the tables for glyph location cannot be read, and
    /// else a font with one outline for each glyph of the file, all of them
    /// well formed.
    pub fn read_truetype(data: Vec<u8>) -> (r: Result<Font, FontError>)
        ensures
            match r {
                Ok(font) => {
                    &&& font_of(data@) == Ok::<FontView, FontError>(font@)
                    &&& forall|i: int|
                        0 <= i < font@.glyphs.len() ==> (#[trigger] font@.glyphs[i]).well_formed()
                },
                Err(e) => font_of(data@) == Err::<FontView, FontError>(e),
            },
    {
        let mut cursor = ByteCursor::new(data);
        let tables = match TableDirectory::parse(&mut cursor) {
            Ok(tables) => tables,
            Err(e) => {
                return Err(e);
            },
        };
        let locator = match GlyphLocator::new(&tables, &mut cursor) {
            Ok(locator) => locator,
            Err(e) => {
                return Err(e);
            },
        };
        let mut glyphs: Vec<GlyphOutline> = Vec::new();
        let mut index: u16 = 0;
        while index < locator.num_glyphs
            invariant
                index <= locator.num_glyphs,
                cursor.bytes() == data@,
                glyphs@.len() == index,
                forall|i: int|
                    0 <= i < index ==> (#[trigger] glyphs@[i])@ == glyph_of(data@, locator, i),
                forall|i: int| 0 <= i < index ==> (#[trigger] glyphs@[i])@.well_formed(),
            decreases locator.num_glyphs - index,
        {
            let outline = load_glyph(&locator, &mut cursor, index);
            glyphs.push(outline);
            index = index + 1;
        }
        let font = Font { tables, glyphs };
        assert(font@.glyphs =~= Seq::new(
            locator.num_glyphs as nat,
            |i: int| glyph_of(data@, locator, i),
        ));
        Ok(font)
    }

    /// The number of glyphs of the font.
    pub fn num_glyphs(&self) -> (n: usize)
        ensures
            n == self@.glyphs.len(),
    {
        self.glyphs.len()
    }

    /// The glyphs that could not be found or decoded: the index of each and
    /// the reason, in the order of the indices.
    pub fn failures(&self) -> (list: Vec<(usize, FontError)>)
        ensures
            list@ == failures_of(self@.glyphs, self@.glyphs.len() as int),
    {
        let mut list: Vec<(usize, FontError)> = Vec::new();
        let mut i: usize = 0;
        while i < self.glyphs.len()
            invariant
                i <= self.glyphs@.len(),
                list@ == failures_of(self@.glyphs, i as int),
            decreases self.glyphs@.len() - i,
        {
            match &self.glyphs[i] {
                GlyphOutline::Failed(e) => {
                    list.push((i, *e));
                },
                _ => {},
            }
            i = i + 1;
        }
        list
    }
}

} // verus!
