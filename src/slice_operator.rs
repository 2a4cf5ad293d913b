use crate::endian::{be_uint, lemma_pow256_eight, lemma_slice_len_fits, read_be, write_be};
use vstd::prelude::*;

verus! {

/// A read / write cursor over a borrowed mutable byte slice. Multi-byte
/// values are read and written big-endian (network order).
#[derive(Debug)]
pub struct SliceOperator<'a> {
    slice: &'a mut [u8],
    pos: usize,
}

/// `before` with the `n` bytes from `at` on replaced by the big-endian
/// encoding of `val`, where `after` is the result of such a write.
pub open spec fn wrote_be(before: Seq<u8>, after: Seq<u8>, at: int, n: int, val: nat) -> bool {
    &&& after.len() == before.len()
    &&& be_uint(after.subrange(at, at + n)) == val
    &&& forall|i: int|
        0 <= i < before.len() && !(at <= i < at + n) ==> #[trigger] after[i] == before[i]
}

impl<'a> SliceOperator<'a> {
    /// The current contents of the underlying bytes.
    pub closed spec fn bytes(&self) -> Seq<u8> {
        self.slice@
    }

    /// The index of the next byte to be read or written.
    pub closed spec fn position(&self) -> int {
        self.pos as int
    }

    /// The big-endian value of the `n` bytes at the cursor.
    pub open spec fn at_cursor(&self, n: int) -> nat {
        be_uint(self.bytes().subrange(self.position(), self.position() + n))
    }

    pub fn from_slice(slice: &'a mut [u8]) -> (r: Self)
        ensures
            r.bytes() == old(slice)@,
            r.position() == 0,
    {
        SliceOperator { slice, pos: 0 }
    }

    pub fn pos(&self) -> (r: usize)
        ensures
            r == self.position(),
    {
        self.pos
    }

    pub fn len(&self) -> (r: usize)
        ensures
            r == self.bytes().len(),
    {
        self.slice.len()
    }

    pub fn peek_u8(&self) -> (r: u8)
        requires
            self.position() + 1 <= self.bytes().len(),
        ensures
            r == self.bytes()[self.position()],
    {
        self.slice[self.pos]
    }

    pub fn peek_u16(&self) -> (r: u16)
        requires
            self.position() + 2 <= self.bytes().len(),
        ensures
            r == self.at_cursor(2),
    {
        proof {
            lemma_pow256_eight();
        }
        read_be(self.slice, self.pos, 2) as u16
    }

    pub fn peek_u32(&self) -> (r: u32)
        requires
            self.position() + 4 <= self.bytes().len(),
        ensures
            r == self.at_cursor(4),
    {
        proof {
            lemma_pow256_eight();
        }
        read_be(self.slice, self.pos, 4) as u32
    }

    pub fn peek_u64(&self) -> (r: u64)
        requires
            self.position() + 8 <= self.bytes().len(),
        ensures
            r == self.at_cursor(8),
    {
        read_be(self.slice, self.pos, 8)
    }

    pub fn read_u8(&mut self) -> (r: u8)
        requires
            old(self).position() + 1 <= old(self).bytes().len(),
        ensures
            r == old(self).bytes()[old(self).position()],
            final(self).bytes() == old(self).bytes(),
            final(self).position() == old(self).position() + 1,
    {
        let r = self.peek_u8();
        proof {
            lemma_slice_len_fits(self.slice);
        }
        self.pos = self.pos + 1;
        r
    }

    pub fn read_u16(&mut self) -> (r: u16)
        requires
            old(self).position() + 2 <= old(self).bytes().len(),
        ensures
            r == old(self).at_cursor(2),
            final(self).bytes() == old(self).bytes(),
            final(self).position() == old(self).position() + 2,
    {
        let r = self.peek_u16();
        proof {
            lemma_slice_len_fits(self.slice);
        }
        self.pos = self.pos + 2;
        r
    }

    pub fn read_u32(&mut self) -> (r: u32)
        requires
            old(self).position() + 4 <= old(self).bytes().len(),
        ensures
            r == old(self).at_cursor(4),
            final(self).bytes() == old(self).bytes(),
            final(self).position() == old(self).position() + 4,
    {
        let r = self.peek_u32();
        proof {
            lemma_slice_len_fits(self.slice);
        }
        self.pos = self.pos + 4;
        r
    }

    pub fn read_u64(&mut self) -> (r: u64)
        requires
            old(self).position() + 8 <= old(self).bytes().len(),
        ensures
            r == old(self).at_cursor(8),
            final(self).bytes() == old(self).bytes(),
            final(self).position() == old(self).position() + 8,
    {
        let r = self.peek_u64();
        proof {
            lemma_slice_len_fits(self.slice);
        }
        self.pos = self.pos + 8;
        r
    }

    pub fn write_u8(&mut self, val: u8)
        requires
            old(self).position() + 1 <= old(self).bytes().len(),
        ensures
            final(self).bytes() == old(self).bytes().update(old(self).position(), val),
            final(self).position() == old(self).position() + 1,
    {
        self.slice[self.pos] = val;
        proof {
            lemma_slice_len_fits(self.slice);
        }
        self.pos = self.pos + 1;
    }

    pub fn write_u16(&mut self, val: u16)
        requires
            old(self).position() + 2 <= old(self).bytes().len(),
        ensures
            wrote_be(old(self).bytes(), final(self).bytes(), old(self).position(), 2, val as nat),
            final(self).position() == old(self).position() + 2,
    {
        proof {
            lemma_pow256_eight();
        }
        write_be(self.slice, self.pos, 2, val as u64);
        proof {
            lemma_slice_len_fits(self.slice);
        }
        self.pos = self.pos + 2;
    }

    pub fn write_u32(&mut self, val: u32)
        requires
            old(self).position() + 4 <= old(self).bytes().len(),
        ensures
            wrote_be(old(self).bytes(), final(self).bytes(), old(self).position(), 4, val as nat),
            final(self).position() == old(self).position() + 4,
    {
        proof {
            lemma_pow256_eight();
        }
        write_be(self.slice, self.pos, 4, val as u64);
        proof {
            lemma_slice_len_fits(self.slice);
        }
        self.pos = self.pos + 4;
    }

    pub fn write_u64(&mut self, val: u64)
        requires
            old(self).position() + 8 <= old(self).bytes().len(),
        ensures
            wrote_be(old(self).bytes(), final(self).bytes(), old(self).position(), 8, val as nat),
            final(self).position() == old(self).position() + 8,
    {
        proof {
            lemma_pow256_eight();
        }
        write_be(self.slice, self.pos, 8, val);
        proof {
            lemma_slice_len_fits(self.slice);
        }
        self.pos = self.pos + 8;
    }

    /// Copies `src` to the cursor and moves the cursor past it.
    pub fn write_slice(&mut self, src: &[u8])
        requires
            old(self).position() + src@.len() <= old(self).bytes().len(),
        ensures
            final(self).bytes() == old(self).bytes().subrange(0, old(self).position()) + src@
                + old(self).bytes().subrange(
                old(self).position() + src@.len(),
                old(self).bytes().len() as int,
            ),
            final(self).position() == old(self).position() + src@.len(),
    {
        proof {
            lemma_slice_len_fits(self.slice);
        }
        let ghost before = self.slice@;
        let start = self.pos;
        let mut i: usize = 0;
        while i < src.len()
            invariant
                start + src@.len() <= before.len() <= usize::MAX,
                self.pos == start,
                i <= src@.len(),
                self.slice@.len() == before.len(),
                forall|k: int| 0 <= k < i ==> #[trigger] self.slice@[start + k] == src@[k],
                forall|k: int|
                    0 <= k < before.len() && !(start <= k < start + i) ==> #[trigger] self.slice@[k]
                        == before[k],
            decreases src@.len() - i,
        {
            self.slice[start + i] = src[i];
            i = i + 1;
        }
        proof {
            let expect = before.subrange(0, start as int) + src@ + before.subrange(
                start + src@.len(),
                before.len() as int,
            );
            assert forall|k: int| 0 <= k < before.len() implies #[trigger] self.slice@[k]
                == expect[k] by {
                if start <= k < start + src@.len() {
                    assert(self.slice@[start + (k - start)] == src@[k - start]);
                }
            }
            assert(self.slice@ =~= expect);
        }
        self.pos = start + src.len();
    }

    /// Takes the next `len` bytes and moves the cursor past them.
    pub fn read_slice(&mut self, len: usize) -> (r: &[u8])
        requires
            old(self).position() + len <= old(self).bytes().len(),
        ensures
            r@ == old(self).bytes().subrange(
                old(self).position(),
                old(self).position() + len,
            ),
            final(self).bytes() == old(self).bytes(),
            final(self).position() == old(self).position() + len,
    {
        proof {
            lemma_slice_len_fits(self.slice);
        }
        let start = self.pos;
        self.pos = self.pos + len;
        &self.slice[start..self.pos]
    }

    /// Iterates over the bytes from the cursor to the end.
    pub fn iter_from_current_pos(&self) -> (r: std::slice::Iter<'_, u8>)
        requires
            self.position() <= self.bytes().len(),
        ensures
            vstd::std_specs::slice::into_iter_elts(r) == self.bytes().subrange(
                self.position(),
                self.bytes().len() as int,
            ),
    {
        let rest: &[u8] = &self.slice[self.pos..self.slice.len()];
        let it = rest.iter();
        proof {
            vstd::std_specs::slice::axiom_spec_slice_iter(rest);
            assert(rest@.as_ref().unref() =~= rest@);
        }
        it
    }

    pub fn skip(&mut self, n: usize)
        requires
            old(self).position() + n <= usize::MAX,
        ensures
            final(self).bytes() == old(self).bytes(),
            final(self).position() == old(self).position() + n,
    {
        self.pos = self.pos + n;
    }

    pub fn set_pos(&mut self, pos: usize)
        ensures
            final(self).bytes() == old(self).bytes(),
            final(self).position() == pos,
    {
        self.pos = pos;
    }

    pub fn as_ref(&self) -> (r: &[u8])
        ensures
            r@ == self.bytes(),
    {
        self.slice
    }

    /// Hands out the underlying bytes for writing; what is written through
    /// the result is what the operator holds afterwards.
    pub fn as_mut(&mut self) -> (r: &mut [u8])
        ensures
            r@ == old(self).bytes(),
            final(self).bytes() == final(r)@,
            final(self).position() == old(self).position(),
    {
        self.slice
    }
}

} // verus!
