//! The state of the SHA-512 hash function, as the `sha2` crate keeps it.

use sha2::Digest;
use vstd::prelude::*;

verus! {

/// A running SHA-512 computation. What is inside belongs to the `sha2`
/// crate; all that is said of it here is which bytes it has taken in.
#[verifier::external_body]
pub struct Sha512State {
    inner: sha2::Sha512,
}

/// The bytes that a SHA-512 state has taken in, in order.
pub uninterp spec fn sha512_absorbed(state: &Sha512State) -> Seq<u8>;

/// The SHA-512 hash of `data`.
pub uninterp spec fn sha512_digest(data: Seq<u8>) -> Seq<u8>;

/// The length of a SHA-512 hash in bytes.
pub const SHA512_LEN: usize = 64;

/// `sha2::Digest::new` for `sha2::Sha512`: a state with no input yet.
#[verifier::external_body]
pub(crate) fn sha512_new() -> (r: Sha512State)
    ensures
        sha512_absorbed(&r) == Seq::<u8>::empty(),
{
    Sha512State { inner: sha2::Sha512::new() }
}

/// `sha2::Digest::update` for `sha2::Sha512`: adds `input` behind the input
/// taken in before. It does not panic on any input.
#[verifier::external_body]
pub(crate) fn sha512_update(state: &mut Sha512State, input: &[u8])
    ensures
        sha512_absorbed(final(state)) == sha512_absorbed(old(state)) + input@,
    no_unwind
{
    state.inner.update(input);
}

/// `sha2::Digest::finalize` for `sha2::Sha512`: uses the state up and gives
/// the hash of all the input taken in, 64 bytes.
#[verifier::external_body]
pub(crate) fn sha512_finalize(state: Sha512State) -> (r: Vec<u8>)
    ensures
        r@ == sha512_digest(sha512_absorbed(&state)),
        r@.len() == SHA512_LEN,
{
    state.inner.finalize().to_vec()
}

} // verus!
