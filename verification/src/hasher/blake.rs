//! BLAKE3.

use crate::hasher::blake3_state::{
    blake3_absorbed, blake3_digest, blake3_finalize, blake3_new, blake3_update, Blake3State,
    BLAKE3_LEN,
};
use crate::hasher::Hasher;
use vstd::prelude::*;

verus! {

/// The BLAKE3 hasher.
pub struct Blake {
    hasher: Blake3State,
    hash: Option<Vec<u8>>,
}

impl Blake {
    /// A hasher that has absorbed nothing.
    pub fn new() -> (r: Self)
        ensures
            r.absorbed() == Seq::<u8>::empty(),
            !r.finished(),
    {
        Blake { hasher: blake3_new(), hash: None }
    }

    #[verifier::type_invariant]
    spec fn well_formed(&self) -> bool {
        self.hash matches Some(hash) ==> hash@ == blake3_digest(blake3_absorbed(&self.hasher))
            && hash@.len() == BLAKE3_LEN
    }
}

impl Hasher for Blake {
    closed spec fn absorbed(&self) -> Seq<u8> {
        blake3_absorbed(&self.hasher)
    }

    closed spec fn finished(&self) -> bool {
        self.hash is Some
    }

    open spec fn digest_of(data: Seq<u8>) -> Seq<u8> {
        blake3_digest(data)
    }

    fn new() -> (r: Self) {
        Blake::new()
    }

    /// Fails only once the hasher is finished.
    fn absorb(&mut self, data: &[u8]) -> (r: Result<(), String>)
        ensures
            r is Ok <==> !old(self).finished(),
    {
        if self.hash.is_some() {
            return Err("Hashing already finished".to_owned());
        }
        blake3_update(&mut self.hasher, data);
        Ok(())
    }

    /// Never fails.
    fn finish(&mut self) -> (r: Result<(), String>)
        ensures
            r is Ok,
    {
        let digest = blake3_finalize(&self.hasher);
        self.hash = Some(digest);
        Ok(())
    }

    /// Fails only while the hasher is not finished. The digest has 32 bytes.
    fn hash(&self) -> (r: Result<&[u8], String>)
        ensures
            r is Ok <==> self.finished(),
            r matches Ok(digest) ==> digest@.len() == BLAKE3_LEN,
    {
        proof {
            use_type_invariant(self);
        }
        match &self.hash {
            Some(hash) => {
                Ok(hash.as_slice())
            },
            None => Err("Hashing not finished".to_owned()),
        }
    }
}

} // verus!
