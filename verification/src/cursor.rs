//! A bounds-checked reader that walks a byte buffer.

use crate::endian::be_i16;
use crate::endian::be_u16;
use crate::endian::be_u32;
use crate::endian::read_be_i16;
use crate::endian::read_be_u16;
use crate::endian::read_be_u32;
use crate::error::FontError;
use vstd::prelude::*;
use vstd::slice::slice_subrange;

verus! {

/// A byte buffer together with a position in it.
///
/// The position never passes the end of the buffer. A read or a seek that
/// would take it there fails with [`FontError::OutOfBounds`] and leaves the
/// cursor as it was.
#[derive(Debug)]
pub struct ByteCursor {
    data: Vec<u8>,
    pos: usize,
}

impl ByteCursor {
    /// The bytes of the buffer.
    pub closed spec fn bytes(&self) -> Seq<u8> {
        self.data@
    }

    /// The index of the next byte to be read.
    pub closed spec fn pos(&self) -> int {
        self.pos as int
    }

    /// What holds of every cursor: its position lies within its buffer.
    #[verifier::type_invariant]
    pub open spec fn in_bounds(&self) -> bool {
        0 <= self.pos() <= self.bytes().len()
    }

    /// Whether `width` more bytes can be read from the current position.
    pub open spec fn has(&self, width: int) -> bool {
        self.pos() + width <= self.bytes().len()
    }

    /// A cursor at the start of `data`.
    pub fn new(data: Vec<u8>) -> (cursor: ByteCursor)
        ensures
            cursor.bytes() == data@,
            cursor.pos() == 0,
    {
        ByteCursor { data, pos: 0 }
    }

    /// The length of the buffer.
    pub fn len(&self) -> (n: usize)
        ensures
            n == self.bytes().len(),
    {
        self.data.len()
    }

    /// The current position, which is at most the length of the buffer.
    pub fn position(&self) -> (p: usize)
        ensures
            p == self.pos(),
            p <= self.bytes().len(),
    {
        proof {
            use_type_invariant(self);
        }
        self.pos
    }

    /// Moves to `pos`, counted from the start of the buffer. The end of the
    /// buffer is a position like any other; anything beyond it is refused.
    pub fn seek_absolute(&mut self, pos: usize) -> (r: Result<(), FontError>)
        ensures
            final(self).bytes() == old(self).bytes(),
            r is Ok <==> pos <= old(self).bytes().len(),
            r is Ok ==> final(self).pos() == pos,
            r is Err ==> r == Err::<(), FontError>(FontError::OutOfBounds) && final(self).pos()
                == old(self).pos(),
    {
        if pos > self.data.len() {
            return Err(FontError::OutOfBounds);
        }
        self.pos = pos;
        Ok(())
    }

    /// Moves by `delta` bytes, forward or backward. A target before the start
    /// or beyond the end of the buffer is refused.
    pub fn seek_relative(&mut self, delta: i64) -> (r: Result<(), FontError>)
        ensures
            final(self).bytes() == old(self).bytes(),
            r is Ok <==> 0 <= old(self).pos() + delta <= old(self).bytes().len(),
            r is Ok ==> final(self).pos() == old(self).pos() + delta,
            r is Err ==> r == Err::<(), FontError>(FontError::OutOfBounds) && final(self).pos()
                == old(self).pos(),
    {
        proof {
            use_type_invariant(&*self);
        }
        let target: i128 = self.pos as i128 + delta as i128;
        if target < 0 || target > self.data.len() as i128 {
            return Err(FontError::OutOfBounds);
        }
        self.pos = target as usize;
        Ok(())
    }

    /// Reads one byte.
    pub fn read_u8(&mut self) -> (r: Result<u8, FontError>)
        ensures
            final(self).bytes() == old(self).bytes(),
            r is Ok <==> old(self).has(1),
            match r {
                Ok(value) => value == old(self).bytes()[old(self).pos()] && final(self).pos()
                    == old(self).pos() + 1,
                Err(e) => e == FontError::OutOfBounds && final(self).pos() == old(self).pos(),
            },
    {
        proof {
            use_type_invariant(&*self);
        }
        if self.pos >= self.data.len() {
            return Err(FontError::OutOfBounds);
        }
        let value = self.data[self.pos];
        self.pos = self.pos + 1;
        Ok(value)
    }

    /// Reads an unsigned 16-bit big-endian integer.
    pub fn read_u16_be(&mut self) -> (r: Result<u16, FontError>)
        ensures
            final(self).bytes() == old(self).bytes(),
            r is Ok <==> old(self).has(2),
            match r {
                Ok(value) => value == be_u16(old(self).bytes(), old(self).pos()) && final(self).pos()
                    == old(self).pos() + 2,
                Err(e) => e == FontError::OutOfBounds && final(self).pos() == old(self).pos(),
            },
    {
        proof {
            use_type_invariant(&*self);
        }
        if self.data.len() - self.pos < 2 {
            return Err(FontError::OutOfBounds);
        }
        let value = read_be_u16(slice_subrange(self.data.as_slice(), self.pos, self.pos + 2));
        self.pos = self.pos + 2;
        Ok(value)
    }

    /// Reads a signed 16-bit big-endian integer.
    pub fn read_i16_be(&mut self) -> (r: Result<i16, FontError>)
        ensures
            final(self).bytes() == old(self).bytes(),
            r is Ok <==> old(self).has(2),
            match r {
                Ok(value) => value == be_i16(old(self).bytes(), old(self).pos()) && final(self).pos()
                    == old(self).pos() + 2,
                Err(e) => e == FontError::OutOfBounds && final(self).pos() == old(self).pos(),
            },
    {
        proof {
            use_type_invariant(&*self);
        }
        if self.data.len() - self.pos < 2 {
            return Err(FontError::OutOfBounds);
        }
        let value = read_be_i16(slice_subrange(self.data.as_slice(), self.pos, self.pos + 2));
        self.pos = self.pos + 2;
        Ok(value)
    }

    /// Reads an unsigned 32-bit big-endian integer.
    pub fn read_u32_be(&mut self) -> (r: Result<u32, FontError>)
        ensures
            final(self).bytes() == old(self).bytes(),
            r is Ok <==> old(self).has(4),
            match r {
                Ok(value) => value == be_u32(old(self).bytes(), old(self).pos()) && final(self).pos()
                    == old(self).pos() + 4,
                Err(e) => e == FontError::OutOfBounds && final(self).pos() == old(self).pos(),
            },
    {
        proof {
            use_type_invariant(&*self);
        }
        if self.data.len() - self.pos < 4 {
            return Err(FontError::OutOfBounds);
        }
        let value = read_be_u32(slice_subrange(self.data.as_slice(), self.pos, self.pos + 4));
        self.pos = self.pos + 4;
        Ok(value)
    }
}

} // verus!
