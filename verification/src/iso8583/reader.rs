//! A forward-only reader over a byte buffer.

use vstd::prelude::*;
use vstd::slice::slice_subrange;
use vstd::slice::slice_to_vec;

verus! {

/// Reads a borrowed byte buffer front to back.
pub struct ByteReader<'a> {
    data: &'a [u8],
    pos: usize,
}

impl<'a> ByteReader<'a> {
    #[verifier::type_invariant]
    spec fn in_bounds(self) -> bool {
        self.pos <= self.data@.len()
    }

    /// The whole buffer, read or not.
    pub closed spec fn buffer(&self) -> Seq<u8> {
        self.data@
    }

    /// How many bytes have been read.
    pub closed spec fn consumed(&self) -> nat {
        self.pos as nat
    }

    /// The bytes not yet read.
    pub open spec fn remaining(&self) -> Seq<u8> {
        self.buffer().skip(self.consumed() as int)
    }

    /// A reader that stands at the start of `data`.
    pub fn new(data: &'a [u8]) -> (r: ByteReader<'a>)
        ensures
            r.buffer() == data@,
            r.consumed() == 0,
            r.remaining() == data@,
    {
        ByteReader { data, pos: 0 }
    }

    /// How many bytes are left.
    pub fn available(&self) -> (n: usize)
        ensures
            n == self.remaining().len(),
            self.consumed() <= self.buffer().len(),
    {
        proof {
            use_type_invariant(self);
        }
        self.data.len() - self.pos
    }

    /// Where the reader stands, counted from the start of the buffer.
    pub fn position(&self) -> (p: usize)
        ensures
            p == self.consumed(),
            p <= self.buffer().len(),
    {
        proof {
            use_type_invariant(self);
        }
        self.pos
    }

    /// Moves the reader to `p`; a `p` beyond the end leaves it where it is.
    pub fn seek(&mut self, p: usize)
        ensures
            final(self).buffer() == old(self).buffer(),
            final(self).consumed() == if p <= old(self).buffer().len() {
                p as nat
            } else {
                old(self).consumed()
            },
    {
        if p <= self.data.len() {
            self.pos = p;
        }
    }

    /// Takes the next `n` bytes, or none at all where fewer are left.
    pub fn read_exact(&mut self, n: usize) -> (r: Option<Vec<u8>>)
        ensures
            final(self).buffer() == old(self).buffer(),
            r is Some <==> n <= old(self).remaining().len(),
            r matches Some(v) ==> v@ == old(self).remaining().take(n as int)
                && final(self).remaining() == old(self).remaining().skip(n as int)
                && final(self).consumed() == old(self).consumed() + n,
            r is None ==> final(self).consumed() == old(self).consumed(),
    {
        proof {
            use_type_invariant(&*self);
        }
        if n > self.data.len() - self.pos {
            return None;
        }
        let chunk = slice_subrange(self.data, self.pos, self.pos + n);
        let out = slice_to_vec(chunk);
        self.pos = self.pos + n;
        assert(out@ =~= old(self).remaining().take(n as int));
        assert(self.remaining() =~= old(self).remaining().skip(n as int));
        Some(out)
    }
}

} // verus!
