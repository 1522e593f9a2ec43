//! The reader capability: what a source of a file's bytes must offer to be
//! used by a walker.

pub mod md;

use std::io::Error;
use vstd::prelude::*;

verus! {

/// A source of the bytes of one file.
///
/// A reader is bound to one file when it is made. It hands the file's bytes
/// out in order, piece by piece, and it may offer the whole file at once as a
/// memory map. The contract speaks of the file as the reader sees it: of its
/// content, and of how far the reader has come.
pub trait Reader: Sized {
    /// The bytes of the file. A reader that does not say what they are is
    /// taken to see some content that its state determines.
    open spec fn content(&self) -> Seq<u8> {
        (arbitrary::<spec_fn(Self) -> Seq<u8>>())(*self)
    }

    /// The number of bytes handed out so far. A reader that does not say how
    /// many is taken to have some position that its state determines.
    open spec fn position(&self) -> nat {
        (arbitrary::<spec_fn(Self) -> nat>())(*self)
    }

    /// Hands out the next bytes of the file, at the front of `buffer`, and
    /// returns their number. Nothing is handed out only at the end of the
    /// file, or where the buffer has no room.
    fn read(&mut self, buffer: &mut [u8]) -> (r: Result<usize, Error>)
        ensures
            final(self).content() == old(self).content(),
            final(buffer)@.len() == old(buffer)@.len(),
            r matches Ok(n) ==> {
                &&& n <= old(buffer)@.len()
                &&& old(self).position() + n <= old(self).content().len()
                &&& final(self).position() == old(self).position() + n
                &&& final(buffer)@.take(n as int) == old(self).content().subrange(
                    old(self).position() as int,
                    old(self).position() + n,
                )
                &&& n == 0 ==> old(self).position() == old(self).content().len() || old(
                    buffer,
                )@.len() == 0
            },
    ;

    /// The whole file as one piece of memory. A reader that cannot map files
    /// fails with the message of its error.
    fn mmap(&mut self) -> (r: Result<&[u8], String>)
        ensures
            final(self).content() == old(self).content(),
            final(self).position() == old(self).position(),
            r matches Ok(bytes) ==> bytes@ == old(self).content(),
    ;
}

} // verus!
