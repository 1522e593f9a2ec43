//! The digest capability: what a hasher must offer to be used by a walker.

pub mod blake;
pub mod blake3_state;
pub mod sha512;
pub mod sha512_state;

use vstd::prelude::*;

verus! {

/// An incremental hasher.
///
/// A hasher is created empty, absorbs bytes in any number of pieces, is
/// finished once, and then shows its digest. The digest is a function of the
/// bytes absorbed, in their order, whatever the pieces were.
///
/// A method that fails returns the message of its error.
pub trait Hasher: Sized {
    /// The bytes absorbed so far, in order. A hasher that does not say what
    /// they are is taken to have absorbed what its state determines.
    open spec fn absorbed(&self) -> Seq<u8> {
        (arbitrary::<spec_fn(Self) -> Seq<u8>>())(*self)
    }

    /// Whether the hasher has been finished.
    open spec fn finished(&self) -> bool {
        (arbitrary::<spec_fn(Self) -> bool>())(*self)
    }

    /// The digest of `data` under this algorithm. A hasher that does not
    /// say what it is is taken to compute some function of the data, its
    /// own.
    open spec fn digest_of(data: Seq<u8>) -> Seq<u8> {
        (arbitrary::<spec_fn(Option<Self>, Seq<u8>) -> Seq<u8>>())(None::<Self>, data)
    }

    /// A hasher that has absorbed nothing.
    fn new() -> (r: Self)
        ensures
            r.absorbed() == Seq::<u8>::empty(),
            !r.finished(),
    ;

    /// Absorbs `data` after everything absorbed before.
    fn absorb(&mut self, data: &[u8]) -> (r: Result<(), String>)
        ensures
            r is Ok ==> final(self).absorbed() == old(self).absorbed() + data@,
            r is Ok ==> final(self).finished() == old(self).finished(),
    ;

    /// Finishes the hasher: nothing absorbed is lost, and the digest can be
    /// shown from now on.
    fn finish(&mut self) -> (r: Result<(), String>)
        ensures
            r is Ok ==> final(self).absorbed() == old(self).absorbed(),
            r is Ok ==> final(self).finished(),
    ;

    /// The digest of what was absorbed. It can only be shown once the hasher
    /// is finished.
    fn hash(&self) -> (r: Result<&[u8], String>)
        ensures
            r is Ok ==> self.finished(),
            r matches Ok(digest) ==> digest@ == Self::digest_of(self.absorbed()),
    ;
}

} // verus!
