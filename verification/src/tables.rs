//! The table directory at the start of a font file.

use crate::cursor::ByteCursor;
use crate::endian::be_u16;
use crate::endian::be_u32;
use crate::error::FontError;
use std::collections::HashMap;
use vstd::prelude::*;

verus! {

broadcast use vstd::std_specs::hash::group_hash_axioms;

/// The tag `head`: the font header table.
pub const TAG_HEAD: u32 = 0x6865_6164;

/// The tag `maxp`: the maximum profile table.
pub const TAG_MAXP: u32 = 0x6d61_7870;

/// The tag `loca`: the glyph location table.
pub const TAG_LOCA: u32 = 0x6c6f_6361;

/// The tag `glyf`: the glyph outline table.
pub const TAG_GLYF: u32 = 0x676c_7966;

/// The length of the file header that precedes the table records.
pub const HEADER_LEN: usize = 12;

/// The length of one table record.
pub const RECORD_LEN: usize = 16;

/// Where a table lies in the file, and the checksum that the directory
/// gives for it.
#[derive(Clone, Copy, Debug, PartialEq, Eq, Structural)]
pub struct TableEntry {
    pub checksum: u32,
    pub offset: u32,
    pub length: u32,
}

/// A tag as a number: its four characters read as a big-endian integer.
pub open spec fn tag_code(b0: u8, b1: u8, b2: u8, b3: u8) -> int {
    b0 as int * 0x100_0000 + b1 as int * 0x1_0000 + b2 as int * 0x100 + b3 as int
}

/// Makes a tag of its four characters, so that `tag(b'g', b'l', b'y', b'f')`
/// is [`TAG_GLYF`].
pub fn tag(b0: u8, b1: u8, b2: u8, b3: u8) -> (code: u32)
    ensures
        code == tag_code(b0, b1, b2, b3),
{
    b0 as u32 * 0x100_0000 + b1 as u32 * 0x1_0000 + b2 as u32 * 0x100 + b3 as u32
}

/// The number of table records that the header of `s` announces.
pub open spec fn table_count(s: Seq<u8>) -> int {
    be_u16(s, 4)
}

/// Where table record `i` begins.
pub open spec fn record_at(i: int) -> int {
    HEADER_LEN + RECORD_LEN * i
}

/// The tag of table record `i`.
pub open spec fn record_tag(s: Seq<u8>, i: int) -> u32 {
    be_u32(s, record_at(i)) as u32
}

/// Whether the four bytes of the tag of table record `i` are ASCII.
pub open spec fn record_tag_is_ascii(s: Seq<u8>, i: int) -> bool {
    &&& s[record_at(i)] < 0x80
    &&& s[record_at(i) + 1] < 0x80
    &&& s[record_at(i) + 2] < 0x80
    &&& s[record_at(i) + 3] < 0x80
}

/// The entry of table record `i`.
pub open spec fn record_entry(s: Seq<u8>, i: int) -> TableEntry {
    TableEntry {
        checksum: be_u32(s, record_at(i) + 4) as u32,
        offset: be_u32(s, record_at(i) + 8) as u32,
        length: be_u32(s, record_at(i) + 12) as u32,
    }
}

/// The mapping that the first `count` table records of `s` give. Where a
/// tag occurs more than once, the later record stands.
pub open spec fn directory_map(s: Seq<u8>, count: int) -> Map<u32, TableEntry>
    decreases count,
{
    if count <= 0 {
        Map::empty()
    } else {
        directory_map(s, count - 1).insert(record_tag(s, count - 1), record_entry(s, count - 1))
    }
}

/// What the table directory of `s` is, or why it cannot be read.
///
/// The header is malformed where the buffer is shorter than its twelve
/// bytes, or than these and the records that they announce. A tag with a
/// byte that is not ASCII is invalid.
pub open spec fn parse_directory(s: Seq<u8>) -> Result<Map<u32, TableEntry>, FontError> {
    if s.len() < HEADER_LEN || s.len() < record_at(table_count(s)) {
        Err(FontError::MalformedHeader)
    } else if exists|i: int| 0 <= i < table_count(s) && !record_tag_is_ascii(s, i) {
        Err(FontError::InvalidTag)
    } else {
        Ok(directory_map(s, table_count(s)))
    }
}

/// A tag is in the mapping exactly if a record has it, and it is mapped to
/// the entry of the last such record.
pub proof fn lemma_directory_lookup(s: Seq<u8>, count: int, tag: u32)
    ensures
        directory_map(s, count).contains_key(tag) <==> exists|i: int|
            0 <= i < count && record_tag(s, i) == tag,
        forall|i: int|
            0 <= i < count && record_tag(s, i) == tag && (forall|j: int|
                i < j < count ==> record_tag(s, j) != tag) ==> directory_map(s, count)[tag]
                == record_entry(s, i),
    decreases count,
{
    if count > 0 {
        lemma_directory_lookup(s, count - 1, tag);
        if record_tag(s, count - 1) != tag {
            assert forall|i: int|
                0 <= i < count && record_tag(s, i) == tag && (forall|j: int|
                    i < j < count ==> record_tag(s, j) != tag) implies directory_map(s, count)[tag]
                == record_entry(s, i) by {
                assert(i < count - 1);
                assert(forall|j: int| i < j < count - 1 ==> record_tag(s, j) != tag);
            }
        }
    }
}

/// The tables of a font, by tag.
#[derive(Clone, Debug)]
pub struct TableDirectory {
    entries: HashMap<u32, TableEntry>,
}

impl View for TableDirectory {
    type V = Map<u32, TableEntry>;

    closed spec fn view(&self) -> Map<u32, TableEntry> {
        self.entries@
    }
}

impl TableDirectory {
    /// Reads the table directory from the start of the cursor's buffer,
    /// wherever the cursor stands.
    ///
    /// The result is what [`parse_directory`] says of the buffer. On success
    /// the cursor is left behind the last table record.
    pub fn parse(cursor: &mut ByteCursor) -> (r: Result<TableDirectory, FontError>)
        ensures
            final(cursor).bytes() == old(cursor).bytes(),
            match r {
                Ok(directory) => {
                    &&& parse_directory(old(cursor).bytes()) == Ok::<
                        Map<u32, TableEntry>,
                        FontError,
                    >(directory@)
                    &&& final(cursor).pos() == record_at(table_count(old(cursor).bytes()))
                },
                Err(e) => parse_directory(old(cursor).bytes()) == Err::<
                    Map<u32, TableEntry>,
                    FontError,
                >(e),
            },
    {
        let ghost s = cursor.bytes();
        if cursor.len() < HEADER_LEN {
            return Err(FontError::MalformedHeader);
        }
        if cursor.seek_absolute(4).is_err() {
            return Err(FontError::MalformedHeader);
        }
        let count = match cursor.read_u16_be() {
            Ok(count) => count,
            Err(_) => {
                return Err(FontError::MalformedHeader);
            },
        };
        if (cursor.len() - HEADER_LEN) / RECORD_LEN < count as usize {
            return Err(FontError::MalformedHeader);
        }
        if cursor.seek_relative(6).is_err() {
            return Err(FontError::MalformedHeader);
        }
        let mut entries: HashMap<u32, TableEntry> = HashMap::new();
        let mut i: u16 = 0;
        while i < count
            invariant
                i <= count,
                count == table_count(s),
                s == old(cursor).bytes(),
                cursor.bytes() == s,
                cursor.pos() == record_at(i as int),
                record_at(count as int) <= s.len(),
                entries@ == directory_map(s, i as int),
                forall|j: int| 0 <= j < i ==> record_tag_is_ascii(s, j),
            decreases count - i,
        {
            let b0 = match cursor.read_u8() {
                Ok(b) => b,
                Err(_) => {
                    return Err(FontError::MalformedHeader);
                },
            };
            let b1 = match cursor.read_u8() {
                Ok(b) => b,
                Err(_) => {
                    return Err(FontError::MalformedHeader);
                },
            };
            let b2 = match cursor.read_u8() {
                Ok(b) => b,
                Err(_) => {
                    return Err(FontError::MalformedHeader);
                },
            };
            let b3 = match cursor.read_u8() {
                Ok(b) => b,
                Err(_) => {
                    return Err(FontError::MalformedHeader);
                },
            };
            if b0 >= 0x80 || b1 >= 0x80 || b2 >= 0x80 || b3 >= 0x80 {
                assert(!record_tag_is_ascii(s, i as int));
                return Err(FontError::InvalidTag);
            }
            let checksum = match cursor.read_u32_be() {
                Ok(v) => v,
                Err(_) => {
                    return Err(FontError::MalformedHeader);
                },
            };
            let offset = match cursor.read_u32_be() {
                Ok(v) => v,
                Err(_) => {
                    return Err(FontError::MalformedHeader);
                },
            };
            let length = match cursor.read_u32_be() {
                Ok(v) => v,
                Err(_) => {
                    return Err(FontError::MalformedHeader);
                },
            };
            entries.insert(tag(b0, b1, b2, b3), TableEntry { checksum, offset, length });
            i = i + 1;
        }
        Ok(TableDirectory { entries })
    }

    /// The entry of the table with this tag, if the directory has one.
    pub fn get(&self, tag: u32) -> (entry: Option<TableEntry>)
        ensures
            entry == (if self@.contains_key(tag) {
                Some(self@[tag])
            } else {
                None::<TableEntry>
            }),
    {
        match self.entries.get(&tag) {
            Some(entry) => Some(*entry),
            None => None,
        }
    }

    /// The entry of the table with this tag, or the error that names the
    /// tag as missing.
    pub fn require(&self, tag: u32) -> (r: Result<TableEntry, FontError>)
        ensures
            r == (if self@.contains_key(tag) {
                Ok::<TableEntry, FontError>(self@[tag])
            } else {
                Err::<TableEntry, FontError>(FontError::MissingTable(tag))
            }),
    {
        match self.get(tag) {
            Some(entry) => Ok(entry),
            None => Err(FontError::MissingTable(tag)),
        }
    }

    /// The number of tables in the directory.
    pub fn len(&self) -> (n: usize)
        ensures
            n == self@.len(),
    {
        self.entries.len()
    }
}

} // verus!
