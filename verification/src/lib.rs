//! A response-body supply library: an immutable store of byte payloads,
//! handed out to request handlers in a fair round-robin rotation, with
//! indexed replay of any previously served payload.

pub mod body;
pub mod lines;
pub mod rotation;
pub mod store;

use vstd::prelude::*;

verus! {

/// The byte sequences held by a vector of byte buffers, in order.
pub open spec fn views_of(v: Seq<Vec<u8>>) -> Seq<Seq<u8>> {
    Seq::new(v.len(), |i: int| v[i]@)
}

/// Appending a buffer appends its bytes to the sequence of views.
pub proof fn lemma_views_of_push(v: Seq<Vec<u8>>, x: Vec<u8>)
    ensures
        views_of(v.push(x)) =~= views_of(v).push(x@),
{
}

} // verus!
