//! The payload store: an initialize-once collection of byte payloads with a
//! round-robin cursor, and the façade that installs it once and serves
//! bodies from it, falling back to an empty body on every read that cannot
//! be satisfied.

use vstd::prelude::*;
use vstd::slice::slice_to_vec;
use vstd::utf8::encode_scalar;
use vstd::utf8::encode_utf8;
use vstd::arithmetic::div_mod::lemma_mod_division_less_than_divisor;
use crate::views_of;
use crate::body::Body;
use crate::body::Id;
use crate::lines::spec_lines;
use crate::lines::split_lines;
use crate::lines::lemma_lines_from_nonempty;

verus! {

/// An owned copy of `v`'s bytes.
fn copy_bytes(v: &Vec<u8>) -> (r: Vec<u8>)
    ensures
        r@ == v@,
{
    let mut r: Vec<u8> = Vec::new();
    let mut k: usize = 0;
    proof {
        assert(v@.take(0) =~= r@);
    }
    while k < v.len()
        invariant
            k <= v.len(),
            r@ == v@.take(k as int),
        decreases v.len() - k,
    {
        proof {
            assert(v@.take(k as int + 1) =~= v@.take(k as int).push(v@[k as int]));
        }
        r.push(v[k]);
        k = k + 1;
    }
    proof {
        assert(v@.take(v.len() as int) =~= v@);
    }
    r
}

/// The UTF-8 bytes of `text`, as an owned buffer.
fn string_bytes(text: &String) -> (r: Vec<u8>)
    ensures
        r@ == encode_utf8(text@),
{
    slice_to_vec(text.as_str().as_bytes())
}

/// The UTF-8 encoding of a non-empty character sequence is non-empty:
/// every character encodes to at least one byte.
proof fn lemma_encode_utf8_nonempty(chars: Seq<char>)
    requires
        chars.len() > 0,
    ensures
        encode_utf8(chars).len() > 0,
{
    assert(encode_scalar(chars[0] as u32).len() >= 1);
}

/// An ordered, immutable sequence of byte payloads plus the round-robin
/// cursor. Once constructed it is never empty, so selection never divides
/// by zero.
#[derive(Debug)]
pub struct DataRing {
    items: Vec<Vec<u8>>,
    cursor: usize,
}

impl DataRing {
    /// Every ring holds at least one payload, and the cursor always stands
    /// on one of them.
    #[verifier::type_invariant]
    spec fn inv(self) -> bool {
        self.items.len() > 0 && self.cursor < self.items.len()
    }

    /// The stored payloads, in serving order.
    pub closed spec fn payloads(self) -> Seq<Seq<u8>> {
        views_of(self.items@)
    }

    /// The position the next selection serves.
    pub closed spec fn cursor_pos(self) -> int {
        self.cursor as int
    }

    /// A ring holding `buf` as its only payload; the cursor starts at 0.
    pub fn from_vec(buf: Vec<u8>) -> (r: Self)
        ensures
            r.payloads() == seq![buf@],
            r.cursor_pos() == 0,
    {
        let ghost b = buf@;
        let mut items: Vec<Vec<u8>> = Vec::new();
        items.push(buf);
        let r = DataRing { items, cursor: 0 };
        proof {
            assert(r.payloads() =~= seq![b]);
        }
        r
    }

    /// A ring holding the UTF-8 bytes of `text` as its only payload.
    pub fn from_string(text: String) -> (r: Self)
        ensures
            r.payloads() == seq![encode_utf8(text@)],
            r.cursor_pos() == 0,
    {
        Self::from_vec(string_bytes(&text))
    }

    /// A ring holding one payload per line of `text`, in input order, line
    /// terminators stripped and empty lines kept. The text must not be
    /// empty: an empty text has no lines, and a ring never holds zero
    /// payloads.
    pub fn from_lines(text: String) -> (r: Self)
        requires
            text@.len() != 0,
        ensures
            r.payloads() == spec_lines(encode_utf8(text@)),
            r.cursor_pos() == 0,
    {
        let bytes = string_bytes(&text);
        let items = split_lines(&bytes);
        proof {
            lemma_encode_utf8_nonempty(text@);
            lemma_lines_from_nonempty(bytes@, seq![]);
        }
        DataRing { items, cursor: 0 }
    }

    /// Serve the next payload: hand out the cursor's index together with a
    /// copy of that payload's bytes, and advance the cursor one step around
    /// the ring.
    pub fn next_item(&mut self) -> (r: (usize, Vec<u8>))
        ensures
            final(self).payloads() == old(self).payloads(),
            old(self).payloads().len() > 0,
            0 <= old(self).cursor_pos() < old(self).payloads().len(),
            r.0 as int == old(self).cursor_pos(),
            r.1@ == old(self).payloads()[r.0 as int],
            final(self).cursor_pos() == (old(self).cursor_pos() + 1) % (
            old(self).payloads().len() as int),
    {
        proof {
            use_type_invariant(&*self);
        }
        let idx = self.cursor;
        let next = (self.cursor + 1) % self.items.len();
        proof {
            lemma_mod_division_less_than_divisor(self.cursor as int + 1, self.items.len() as int);
        }
        self.cursor = next;
        let bytes = copy_bytes(&self.items[idx]);
        (idx, bytes)
    }

    /// Pure lookup of the payload at `index`; the cursor is untouched, and
    /// an out-of-range index yields nothing.
    pub fn get(&self, index: usize) -> (r: Option<Vec<u8>>)
        ensures
            match r {
                Some(v) => index < self.payloads().len() && v@ == self.payloads()[index as int],
                None => index >= self.payloads().len(),
            },
    {
        if index < self.items.len() {
            Some(copy_bytes(&self.items[index]))
        } else {
            None
        }
    }
}

/// The installer's failure: the process-wide store accepts only one
/// installation.
#[derive(Clone, Copy, Debug, PartialEq, Eq, Structural)]
pub enum StoreError {
    AlreadyInitialized,
}

/// The façade over the payload store: installs at most one `DataRing` for
/// its lifetime, and serves bodies from it. Read paths never fail: while no
/// store is installed, or for a stale identifier, they serve an empty body.
#[derive(Debug)]
pub struct BodyBuilder {
    ring: Option<DataRing>,
}

impl BodyBuilder {
    /// Whether a store has been installed.
    pub closed spec fn installed(self) -> bool {
        self.ring is Some
    }

    /// The installed payloads; empty while no store is installed.
    pub closed spec fn payloads(self) -> Seq<Seq<u8>> {
        if self.ring is Some {
            self.ring->0.payloads()
        } else {
            Seq::empty()
        }
    }

    /// The installed ring's cursor; 0 while no store is installed.
    pub closed spec fn cursor_pos(self) -> int {
        if self.ring is Some {
            self.ring->0.cursor_pos()
        } else {
            0
        }
    }

    /// A handle with no store installed yet.
    pub fn new() -> (r: Self)
        ensures
            !r.installed(),
            r.payloads().len() == 0,
            r.cursor_pos() == 0,
    {
        BodyBuilder { ring: None }
    }

    /// Install `data` as this handle's store. The first installation wins:
    /// any later attempt fails and leaves the installed store untouched.
    pub fn init(&mut self, data: DataRing) -> (r: Result<(), StoreError>)
        ensures
            old(self).installed() ==> r == Err::<(), StoreError>(StoreError::AlreadyInitialized)
                && *final(self) == *old(self),
            !old(self).installed() ==> r == Ok::<(), StoreError>(()) && final(self).installed()
                && final(self).payloads() == data.payloads() && final(self).cursor_pos()
                == data.cursor_pos(),
    {
        if self.ring.is_some() {
            Err(StoreError::AlreadyInitialized)
        } else {
            self.ring = Some(data);
            Ok(())
        }
    }

    /// Install a store holding `buf` as its single payload. Fails if a
    /// store is already installed.
    pub fn from_vec(&mut self, buf: Vec<u8>) -> (r: Result<(), StoreError>)
        ensures
            old(self).installed() ==> r == Err::<(), StoreError>(StoreError::AlreadyInitialized)
                && *final(self) == *old(self),
            !old(self).installed() ==> r == Ok::<(), StoreError>(()) && final(self).installed()
                && final(self).payloads() == seq![buf@] && final(self).cursor_pos() == 0,
    {
        let data = DataRing::from_vec(buf);
        self.init(data)
    }

    /// Install a store holding the UTF-8 bytes of `text` as its single
    /// payload. Fails if a store is already installed.
    pub fn from_string(&mut self, text: String) -> (r: Result<(), StoreError>)
        ensures
            old(self).installed() ==> r == Err::<(), StoreError>(StoreError::AlreadyInitialized)
                && *final(self) == *old(self),
            !old(self).installed() ==> r == Ok::<(), StoreError>(()) && final(self).installed()
                && final(self).payloads() == seq![encode_utf8(text@)] && final(self).cursor_pos()
                == 0,
    {
        let data = DataRing::from_string(text);
        self.init(data)
    }

    /// Install a store holding one payload per line of `text`. The text
    /// must not be empty: a store never holds zero payloads. Fails if a
    /// store is already installed.
    pub fn from_lines(&mut self, text: String) -> (r: Result<(), StoreError>)
        requires
            text@.len() != 0,
        ensures
            old(self).installed() ==> r == Err::<(), StoreError>(StoreError::AlreadyInitialized)
                && *final(self) == *old(self),
            !old(self).installed() ==> r == Ok::<(), StoreError>(()) && final(self).installed()
                && final(self).payloads() == spec_lines(encode_utf8(text@))
                && final(self).cursor_pos() == 0,
    {
        let data = DataRing::from_lines(text);
        self.init(data)
    }

    /// Serve the next body: advance the installed ring one step and hand
    /// out its payload with that payload's identifier. While no store is
    /// installed, serve the default identifier with an empty body.
    pub fn next_body(&mut self) -> (r: (Id, Body))
        ensures
            final(self).installed() == old(self).installed(),
            final(self).payloads() == old(self).payloads(),
            !old(self).installed() ==> r.0@ == 0 && r.1@.len() == 0 && *final(self) == *old(self),
            old(self).installed() ==> r.0@ == old(self).cursor_pos() && 0 <= r.0@ < old(
                self,
            ).payloads().len() && r.1@ == old(self).payloads()[r.0@] && final(self).cursor_pos()
                == (old(self).cursor_pos() + 1) % (old(self).payloads().len() as int),
    {
        let mut taken: Option<DataRing> = None;
        core::mem::swap(&mut taken, &mut self.ring);
        match taken {
            None => (Id::default(), Body::empty()),
            Some(mut ring) => {
                let (idx, bytes) = ring.next_item();
                self.ring = Some(ring);
                (Id::new(idx), Body::new(bytes))
            },
        }
    }

    /// Reconstruct the body served under `idx`, without touching the
    /// cursor. A stale or missing identifier yields the empty body rather
    /// than an error.
    pub fn body_by_index(&self, idx: Id) -> (r: Body)
        ensures
            self.installed() && idx@ < self.payloads().len() ==> r@ == self.payloads()[idx@],
            !(self.installed() && idx@ < self.payloads().len()) ==> r@.len() == 0,
    {
        match &self.ring {
            None => Body::empty(),
            Some(ring) => match ring.get(idx.index_value()) {
                Some(bytes) => Body::new(bytes),
                None => Body::empty(),
            },
        }
    }
}

} // verus!
