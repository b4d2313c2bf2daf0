//! An in-memory byte stream with sequential-read semantics: a read hands
//! out up to the asked-for number of bytes and advances the position;
//! fewer bytes come back only at end of stream.

use vstd::prelude::*;

verus! {

/// A byte stream over an owned buffer.
#[derive(Debug, PartialEq, Eq)]
pub struct ByteStream {
    data: Vec<u8>,
    pos: usize,
}

impl ByteStream {
    #[verifier::type_invariant]
    spec fn wf(self) -> bool {
        self.pos <= self.data@.len()
    }

    /// The whole underlying buffer.
    pub closed spec fn spec_data(self) -> Seq<u8> {
        self.data@
    }

    /// The read position.
    pub closed spec fn spec_pos(self) -> int {
        self.pos as int
    }

    /// How many bytes are left to read.
    pub open spec fn spec_remaining(self) -> int {
        self.spec_data().len() - self.spec_pos()
    }

    /// Makes a stream that reads `data` from its start.
    pub fn new(data: Vec<u8>) -> (r: ByteStream)
        ensures
            r.spec_data() == data@,
            r.spec_pos() == 0,
    {
        ByteStream { data, pos: 0 }
    }

    /// The read position, as a plain integer.
    pub fn position(&self) -> (r: usize)
        ensures
            r == self.spec_pos(),
    {
        self.pos
    }

    /// How many bytes are left to read, as a plain integer.
    pub fn remaining(&self) -> (r: usize)
        ensures
            r == self.spec_remaining(),
    {
        proof {
            use_type_invariant(&*self);
        }
        self.data.len() - self.pos
    }

    /// Borrows the underlying buffer.
    pub fn data(&self) -> (r: &Vec<u8>)
        ensures
            r@ == self.spec_data(),
    {
        &self.data
    }

    /// Gives the underlying buffer back.
    pub fn into_data(self) -> (r: Vec<u8>)
        ensures
            r@ == self.spec_data(),
    {
        self.data
    }

    /// Reads up to `n` bytes, advancing the position; fewer than `n` come
    /// back only when the stream ends first.
    pub fn read_up_to(&mut self, n: usize) -> (r: Vec<u8>)
        ensures
            final (self).spec_data() == old(self).spec_data(),
            r@.len() == (if n as int <= old(self).spec_remaining() {
                n as int
            } else {
                old(self).spec_remaining()
            }),
            r@ == old(self).spec_data().subrange(
                old(self).spec_pos(),
                old(self).spec_pos() + r@.len(),
            ),
            final (self).spec_pos() == old(self).spec_pos() + r@.len(),
    {
        proof {
            use_type_invariant(&*self);
        }
        let start = self.pos;
        let avail = self.data.len() - self.pos;
        let take = if n <= avail {
            n
        } else {
            avail
        };
        let mut out: Vec<u8> = Vec::new();
        let mut i: usize = 0;
        assert(out@ =~= self.data@.subrange(start as int, start as int));
        while i < take
            invariant
                i <= take,
                start + take <= self.spec_data().len(),
                self.spec_data().len() <= usize::MAX,
                self == old(self),
                self.wf(),
                start == self.spec_pos(),
                out@ == self.spec_data().subrange(start as int, start + i),
            decreases take - i,
        {
            out.push(self.data[start + i]);
            proof {
                assert(self.data@.subrange(start as int, start + (i + 1)) =~= self.data@.subrange(
                    start as int,
                    start + i,
                ).push(self.data@[start + i]));
            }
            i = i + 1;
        }
        self.pos = start + take;
        out
    }
}

} // verus!
