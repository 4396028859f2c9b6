//! An in-memory byte source with a read position.

use vstd::prelude::*;
use vstd::slice::slice_subrange;

verus! {

/// A buffer of bytes together with the position of the next byte to read.
///
/// The view of a cursor is the sequence of bytes that have not been read yet.
/// Cloning a cursor gives a second one at the same position; the two advance
/// independently.
#[derive(Debug)]
pub struct ByteCursor {
    data: Vec<u8>,
    pos: usize,
}

impl View for ByteCursor {
    type V = Seq<u8>;

    closed spec fn view(&self) -> Seq<u8> {
        self.data@.skip(self.pos as int)
    }
}

impl ByteCursor {
    #[verifier::type_invariant]
    spec fn in_bounds(self) -> bool {
        self.pos <= self.data@.len()
    }

    /// A cursor at the start of `data`.
    pub fn new(data: Vec<u8>) -> (cursor: Self)
        ensures
            cursor@ == data@,
    {
        ByteCursor { data, pos: 0 }
    }

    /// The number of bytes that have not been read yet.
    pub fn remaining(&self) -> (n: usize)
        ensures
            n == self@.len(),
    {
        proof {
            use_type_invariant(self);
        }
        self.data.len() - self.pos
    }

    /// Reads the next `n` bytes, or none at all.
    ///
    /// When fewer than `n` bytes are left the read fails and the cursor moves
    /// to the end of its buffer, so that every later read of one byte or more
    /// fails as well.
    pub fn read_exact(&mut self, n: usize) -> (bytes: Option<&[u8]>)
        ensures
            match bytes {
                Some(bytes) => {
                    &&& n <= old(self)@.len()
                    &&& bytes@ == old(self)@.take(n as int)
                    &&& final(self)@ == old(self)@.skip(n as int)
                },
                None => {
                    &&& n > old(self)@.len()
                    &&& final(self)@ == Seq::<u8>::empty()
                },
            },
    {
        proof {
            use_type_invariant(&*self);
        }
        let start: usize = self.pos;
        if n > self.data.len() - start {
            self.pos = self.data.len();
            return None;
        }
        self.pos = start + n;
        Some(slice_subrange(self.data.as_slice(), start, start + n))
    }
}

impl Clone for ByteCursor {
    fn clone(&self) -> (copy: Self)
        ensures
            copy@ == self@,
    {
        proof {
            use_type_invariant(self);
        }
        ByteCursor { data: self.data.clone(), pos: self.pos }
    }
}

} // verus!
