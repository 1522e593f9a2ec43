//! SHA-512.

use crate::hasher::sha512_state::{
    sha512_absorbed, sha512_digest, sha512_finalize, sha512_new, sha512_update, Sha512State,
    SHA512_LEN,
};
use crate::hasher::Hasher;
use vstd::prelude::*;

verus! {

/// Adds `data` to the state in `slot`, if there is one, and says whether
/// there was.
fn feed(slot: &mut Option<Sha512State>, data: &[u8]) -> (fed: bool)
    ensures
        fed == (*old(slot) is Some),
        *old(slot) matches Some(before) ==> (*final(slot) matches Some(after) && sha512_absorbed(
            &after,
        ) == sha512_absorbed(&before) + data@),
        *old(slot) is None ==> *final(slot) is None,
    no_unwind
{
    match slot {
        Some(state) => {
            sha512_update(state, data);
            true
        },
        None => false,
    }
}

/// The SHA-512 hasher. It is finished once: the state of the computation is
/// used up by that.
pub struct Sha512 {
    hasher: Option<Sha512State>,
    hash: Option<(Vec<u8>, Ghost<Seq<u8>>)>,
}

impl Sha512 {
    /// A hasher that has absorbed nothing and is running.
    pub fn new() -> (r: Self)
        ensures
            r.absorbed() == Seq::<u8>::empty(),
            !r.finished(),
            r.running(),
    {
        Sha512 { hasher: Some(sha512_new()), hash: None }
    }

    /// Whether the state of the computation is still there: whether the
    /// hasher can absorb, and can be finished.
    pub closed spec fn running(&self) -> bool {
        self.hasher is Some
    }

    #[verifier::type_invariant]
    spec fn well_formed(&self) -> bool {
        self.hash matches Some((hash, fed)) ==> self.hasher is None && hash@ == sha512_digest(fed@)
            && hash@.len() == SHA512_LEN
    }
}

impl Hasher for Sha512 {
    closed spec fn absorbed(&self) -> Seq<u8> {
        match self.hasher {
            Some(state) => sha512_absorbed(&state),
            None => match self.hash {
                Some((_, fed)) => fed@,
                None => Seq::empty(),
            },
        }
    }

    closed spec fn finished(&self) -> bool {
        self.hash is Some
    }

    open spec fn digest_of(data: Seq<u8>) -> Seq<u8> {
        sha512_digest(data)
    }

    /// The new hasher is running.
    fn new() -> (r: Self)
        ensures
            r.running(),
    {
        Sha512::new()
    }

    /// Succeeds exactly while the hasher is running, and leaves it running.
    /// Once the state is used up the data is refused, and nothing changes.
    fn absorb(&mut self, data: &[u8]) -> (r: Result<(), String>)
        ensures
            r is Ok <==> old(self).running(),
            final(self).running() == old(self).running(),
            r matches Err(detail) ==> {
                &&& detail@ == already_finished()
                &&& final(self).absorbed() == old(self).absorbed()
                &&& final(self).finished() == old(self).finished()
            },
    {
        proof {
            use_type_invariant(&*self);
        }
        if feed(&mut self.hasher, data) {
            Ok(())
        } else {
            Err("Hashing already finished".to_owned())
        }
    }

    /// Succeeds exactly while the hasher is running: the state is used up
    /// for the digest, and the hasher runs no longer. A second call is
    /// refused, and nothing changes.
    fn finish(&mut self) -> (r: Result<(), String>)
        ensures
            r is Ok <==> old(self).running(),
            !final(self).running(),
            r matches Err(detail) ==> {
                &&& detail@ == already_finished()
                &&& final(self).absorbed() == old(self).absorbed()
                &&& final(self).finished() == old(self).finished()
            },
    {
        proof {
            use_type_invariant(&*self);
        }
        let ghost fed = self.absorbed();
        let mut slot: Option<Sha512State> = None;
        std::mem::swap(&mut slot, &mut self.hasher);
        match slot {
            Some(state) => {
                let digest = sha512_finalize(state);
                self.hash = Some((digest, Ghost(fed)));
                Ok(())
            },
            None => Err("Hashing already finished".to_owned()),
        }
    }

    /// Fails only while the hasher is not finished. The digest has 64 bytes.
    fn hash(&self) -> (r: Result<&[u8], String>)
        ensures
            r is Ok <==> self.finished(),
            r matches Ok(digest) ==> digest@.len() == SHA512_LEN,
    {
        proof {
            use_type_invariant(self);
        }
        match &self.hash {
            Some((hash, _)) => Ok(hash.as_slice()),
            None => Err("Hashing not finished".to_owned()),
        }
    }
}

/// The message with which a hasher refuses to absorb or to finish once its
/// state is used up.
pub open spec fn already_finished() -> Seq<char> {
    "Hashing already finished"@
}

} // verus!
