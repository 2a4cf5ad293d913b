use crate::endian::{be_uint, lemma_pow256_eight, lemma_slice_len_fits, read_be};
use vstd::prelude::*;

verus! {

/// A read cursor over a borrowed byte slice. Multi-byte values are read
/// big-endian (network order).
#[derive(Debug)]
pub struct SliceReader<'a> {
    slice: &'a [u8],
    pos: usize,
}

impl<'a> SliceReader<'a> {
    /// The bytes the reader walks over.
    pub closed spec fn bytes(&self) -> Seq<u8> {
        self.slice@
    }

    /// The index of the next byte to be read.
    pub closed spec fn position(&self) -> int {
        self.pos as int
    }

    /// The big-endian value of the `n` bytes at the cursor.
    pub open spec fn at_cursor(&self, n: int) -> nat {
        be_uint(self.bytes().subrange(self.position(), self.position() + n))
    }

    pub fn from_slice(slice: &'a [u8]) -> (r: Self)
        ensures
            r.bytes() == slice@,
            r.position() == 0,
    {
        SliceReader { slice, pos: 0 }
    }

    pub fn pos(&self) -> (r: usize)
        ensures
            r == self.position(),
    {
        self.pos
    }

    pub fn len(&self) -> (r: usize)
        ensures
            r == self.bytes().len(),
    {
        self.slice.len()
    }

    pub fn peek_u8(&self) -> (r: u8)
        requires
            self.position() + 1 <= self.bytes().len(),
        ensures
            r == self.bytes()[self.position()],
    {
        self.slice[self.pos]
    }

    pub fn peek_u16(&self) -> (r: u16)
        requires
            self.position() + 2 <= self.bytes().len(),
        ensures
            r == self.at_cursor(2),
    {
        proof {
            lemma_pow256_eight();
        }
        read_be(self.slice, self.pos, 2) as u16
    }

    pub fn peek_u32(&self) -> (r: u32)
        requires
            self.position() + 4 <= self.bytes().len(),
        ensures
            r == self.at_cursor(4),
    {
        proof {
            lemma_pow256_eight();
        }
        read_be(self.slice, self.pos, 4) as u32
    }

    pub fn peek_u64(&self) -> (r: u64)
        requires
            self.position() + 8 <= self.bytes().len(),
        ensures
            r == self.at_cursor(8),
    {
        read_be(self.slice, self.pos, 8)
    }

    pub fn read_u8(&mut self) -> (r: u8)
        requires
            old(self).position() + 1 <= old(self).bytes().len(),
        ensures
            r == old(self).bytes()[old(self).position()],
            final(self).bytes() == old(self).bytes(),
            final(self).position() == old(self).position() + 1,
    {
        proof {
            lemma_slice_len_fits(self.slice);
        }
        self.pos = self.pos + 1;
        self.slice[self.pos - 1]
    }

    pub fn read_u16(&mut self) -> (r: u16)
        requires
            old(self).position() + 2 <= old(self).bytes().len(),
        ensures
            r == old(self).at_cursor(2),
            final(self).bytes() == old(self).bytes(),
            final(self).position() == old(self).position() + 2,
    {
        let r = self.peek_u16();
        proof {
            lemma_slice_len_fits(self.slice);
        }
        self.pos = self.pos + 2;
        r
    }

    pub fn read_u32(&mut self) -> (r: u32)
        requires
            old(self).position() + 4 <= old(self).bytes().len(),
        ensures
            r == old(self).at_cursor(4),
            final(self).bytes() == old(self).bytes(),
            final(self).position() == old(self).position() + 4,
    {
        let r = self.peek_u32();
        proof {
            lemma_slice_len_fits(self.slice);
        }
        self.pos = self.pos + 4;
        r
    }

    pub fn read_u64(&mut self) -> (r: u64)
        requires
            old(self).position() + 8 <= old(self).bytes().len(),
        ensures
            r == old(self).at_cursor(8),
            final(self).bytes() == old(self).bytes(),
            final(self).position() == old(self).position() + 8,
    {
        let r = self.peek_u64();
        proof {
            lemma_slice_len_fits(self.slice);
        }
        self.pos = self.pos + 8;
        r
    }

    /// Takes the next `len` bytes and moves the cursor past them.
    pub fn read_slice(&mut self, len: usize) -> (r: &'a [u8])
        requires
            old(self).position() + len <= old(self).bytes().len(),
        ensures
            r@ == old(self).bytes().subrange(
                old(self).position(),
                old(self).position() + len,
            ),
            final(self).bytes() == old(self).bytes(),
            final(self).position() == old(self).position() + len,
    {
        let start = self.pos;
        proof {
            lemma_slice_len_fits(self.slice);
        }
        self.pos = self.pos + len;
        &self.slice[start..self.pos]
    }

    /// Iterates over the bytes from the cursor to the end.
    pub fn iter_from_current_pos(&self) -> (r: std::slice::Iter<'a, u8>)
        requires
            self.position() <= self.bytes().len(),
        ensures
            vstd::std_specs::slice::into_iter_elts(r) == self.bytes().subrange(
                self.position(),
                self.bytes().len() as int,
            ),
    {
        let rest: &'a [u8] = &self.slice[self.pos..self.slice.len()];
        let it = rest.iter();
        proof {
            vstd::std_specs::slice::axiom_spec_slice_iter(rest);
            assert(rest@.as_ref().unref() =~= rest@);
        }
        it
    }

    pub fn skip(&mut self, n: usize)
        requires
            old(self).position() + n <= usize::MAX,
        ensures
            final(self).bytes() == old(self).bytes(),
            final(self).position() == old(self).position() + n,
    {
        self.pos = self.pos + n;
    }

    pub fn set_pos(&mut self, pos: usize)
        ensures
            final(self).bytes() == old(self).bytes(),
            final(self).position() == pos,
    {
        self.pos = pos;
    }

    pub fn as_ref(&self) -> (r: &[u8])
        ensures
            r@ == self.bytes(),
    {
        self.slice
    }

    pub fn as_mut(&mut self) -> (r: &'a [u8])
        ensures
            r@ == old(self).bytes(),
            final(self).bytes() == old(self).bytes(),
            final(self).position() == old(self).position(),
    {
        self.slice
    }
}

} // verus!
