//! The streaming body handed to the transport layer, and the opaque
//! identifier under which a served payload can be replayed.

use vstd::prelude::*;
use vstd::slice::slice_subrange;

verus! {

/// A streaming view over one payload's bytes: a fixed, immutable buffer plus
/// a read cursor. Created per response and consumed incrementally through
/// `remaining` / `chunk` / `advance`; its view is the sequence of bytes not
/// yet consumed.
#[derive(Debug)]
pub struct Body {
    data: Vec<u8>,
    pos: usize,
}

impl View for Body {
    type V = Seq<u8>;

    closed spec fn view(&self) -> Seq<u8> {
        self.data@.skip(self.pos as int)
    }
}

impl Body {
    #[verifier::type_invariant]
    spec fn inv(self) -> bool {
        self.pos <= self.data.len()
    }

    /// A body over the whole of `bytes`, nothing consumed yet.
    pub(crate) fn new(bytes: Vec<u8>) -> (r: Self)
        ensures
            r@ == bytes@,
    {
        let r = Body { data: bytes, pos: 0 };
        proof {
            assert(r@ =~= r.data@);
        }
        r
    }

    /// The empty body: the safe default served when no payload is available.
    pub(crate) fn empty() -> (r: Self)
        ensures
            r@.len() == 0,
    {
        Body { data: Vec::new(), pos: 0 }
    }

    /// Bytes not yet consumed.
    pub fn remaining(&self) -> (n: usize)
        ensures
            n == self@.len(),
    {
        proof {
            use_type_invariant(self);
        }
        self.data.len() - self.pos
    }

    /// The next contiguous run of unconsumed bytes; here always the whole
    /// remainder.
    pub fn chunk(&self) -> (r: &[u8])
        ensures
            r@ == self@,
    {
        proof {
            use_type_invariant(self);
        }
        slice_subrange(self.data.as_slice(), self.pos, self.data.len())
    }

    /// Consume `n` bytes from the front. Callers (the transport layer) are
    /// expected to respect `remaining()`.
    pub fn advance(&mut self, n: usize)
        requires
            n <= old(self)@.len(),
        ensures
            final(self)@ == old(self)@.skip(n as int),
    {
        proof {
            use_type_invariant(&*self);
        }
        self.pos = self.pos + n;
        proof {
            assert(self@ =~= old(self)@.skip(n as int));
        }
    }
}

/// An opaque handle to a payload's position in the store at the moment of
/// selection, usable as a persisted key. It exposes equality, a default for
/// the no-store case, and a signed scalar form for a persistence layer; no
/// index arithmetic.
#[derive(Clone, Copy, Debug, PartialEq, Eq, Structural)]
pub struct Id(usize);

impl View for Id {
    type V = int;

    closed spec fn view(&self) -> int {
        self.0 as int
    }
}

impl Id {
    pub(crate) fn new(index: usize) -> (r: Self)
        ensures
            r@ == index as int,
    {
        Id(index)
    }

    pub(crate) fn index_value(&self) -> (r: usize)
        ensures
            r as int == self@,
    {
        self.0
    }

    /// The scalar under which this identifier is written to a log or
    /// database row.
    pub fn to_sql_value(&self) -> (r: i64)
        ensures
            self@ <= i64::MAX ==> r == self@ as i64,
    {
        #[verifier::truncate]
        (self.0 as i64)
    }
}

impl Default for Id {
    /// The identifier served when no store has been installed.
    fn default() -> (r: Self)
        ensures
            r@ == 0,
    {
        Id(0)
    }
}

} // verus!
