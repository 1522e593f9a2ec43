//! The state of the BLAKE3 hash function, as the `blake3` crate keeps it.

use vstd::prelude::*;

verus! {

/// A running BLAKE3 computation. What is inside belongs to the `blake3`
/// crate; all that is said of it here is which bytes it has taken in.
#[verifier::external_body]
pub struct Blake3State {
    inner: blake3::Hasher,
}

/// The bytes that a BLAKE3 state has taken in, in order.
pub uninterp spec fn blake3_absorbed(state: &Blake3State) -> Seq<u8>;

/// The BLAKE3 hash of `data`.
pub uninterp spec fn blake3_digest(data: Seq<u8>) -> Seq<u8>;

/// The length of a BLAKE3 hash in bytes.
pub const BLAKE3_LEN: usize = 32;

/// `blake3::Hasher::new`: the state of the regular hash function, with no
/// input yet.
#[verifier::external_body]
pub(crate) fn blake3_new() -> (r: Blake3State)
    ensures
        blake3_absorbed(&r) == Seq::<u8>::empty(),
{
    Blake3State { inner: blake3::Hasher::new() }
}

/// `blake3::Hasher::update`: adds `input` behind the input taken in before.
/// It does not panic on any input.
#[verifier::external_body]
pub(crate) fn blake3_update(state: &mut Blake3State, input: &[u8])
    ensures
        blake3_absorbed(final(state)) == blake3_absorbed(old(state)) + input@,
    no_unwind
{
    state.inner.update(input);
}

/// `blake3::Hasher::finalize`: the hash of all the input taken in, 32 bytes.
/// The state is left as it was.
#[verifier::external_body]
pub(crate) fn blake3_finalize(state: &Blake3State) -> (r: Vec<u8>)
    ensures
        r@ == blake3_digest(blake3_absorbed(state)),
        r@.len() == BLAKE3_LEN,
{
    state.inner.finalize().as_bytes().to_vec()
}

} // verus!
