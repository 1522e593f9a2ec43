//! A reader that stands for a file by its metadata.

use crate::io::other_error;
use crate::reader::Reader;
use std::io::Error;
use vstd::prelude::*;

verus! {

/// The big-endian form of `value` in `width` bytes.
pub open spec fn be_bytes(value: nat, width: nat) -> Seq<u8>
    decreases width,
{
    if width == 0 {
        Seq::empty()
    } else {
        be_bytes(value / 256, (width - 1) as nat).push((value % 256) as u8)
    }
}

/// What [`Md`] hands out for a file: the time of its last change, in
/// nanoseconds since the epoch, as 16 bytes, and then its length as 8 bytes,
/// both big-endian.
pub open spec fn md_bytes(modified: u128, len: u64) -> Seq<u8> {
    be_bytes(modified as nat, 16) + be_bytes(len as nat, 8)
}

/// The number of bytes that [`Md`] hands out.
pub const MD_SIZE: usize = 24;

proof fn lemma_be_bytes_len(value: nat, width: nat)
    ensures
        be_bytes(value, width).len() == width,
    decreases width,
{
    if width > 0 {
        lemma_be_bytes_len(value / 256, (width - 1) as nat);
    }
}

/// Writes the big-endian form of `value` to `buffer[at..at + width]`.
fn put_be(buffer: &mut [u8], at: usize, width: usize, value: u128)
    requires
        at + width <= old(buffer)@.len(),
        width <= 16,
    ensures
        final(buffer)@.len() == old(buffer)@.len(),
        final(buffer)@.subrange(at as int, at + width) == be_bytes(value as nat, width as nat),
        forall|j: int|
            0 <= j < at || at + width <= j < old(buffer)@.len() ==> final(buffer)@[j] == old(
                buffer,
            )@[j],
{
    let total: usize = buffer.len();
    let mut left: usize = width;
    let mut rest: u128 = value;
    assert(buffer@.subrange(at + width, at + width) =~= Seq::<u8>::empty());
    assert(be_bytes(value as nat, width as nat) + Seq::<u8>::empty() =~= be_bytes(
        value as nat,
        width as nat,
    ));
    while left > 0
        invariant
            left <= width <= 16,
            total == buffer@.len(),
            at + width <= buffer@.len(),
            buffer@.len() == old(buffer)@.len(),
            be_bytes(value as nat, width as nat) == be_bytes(rest as nat, left as nat)
                + buffer@.subrange(at + left, at + width),
            forall|j: int|
                0 <= j < at || at + width <= j < buffer@.len() ==> buffer@[j] == old(buffer)@[j],
        decreases left,
    {
        proof {
            let r = rest;
            assert(r & 0xff == r % 256) by (bit_vector);
            assert(r >> 8 == r / 256) by (bit_vector);
        }
        let byte: u8 = (rest & 0xff) as u8;
        let ghost before = buffer@;
        left -= 1;
        buffer[at + left] = byte;
        proof {
            assert(buffer@.subrange(at + left, at + width) =~= seq![byte] + before.subrange(
                at + left + 1,
                at + width,
            ));
            assert(be_bytes(rest as nat, (left + 1) as nat) == be_bytes(
                (rest as nat) / 256,
                left as nat,
            ).push(byte));
            assert(be_bytes(rest as nat, (left + 1) as nat) + before.subrange(
                at + left + 1,
                at + width,
            ) =~= be_bytes((rest as nat) / 256, left as nat) + buffer@.subrange(
                at + left,
                at + width,
            ));
        }
        rest = rest >> 8;
    }
    proof {
        assert(be_bytes(rest as nat, 0) =~= Seq::<u8>::empty());
        assert(be_bytes(value as nat, width as nat) =~= buffer@.subrange(
            at as int,
            at + width,
        ));
    }
}

/// A reader that does not read the file at all: it hands out the time of the
/// file's last change and the file's length, once. Two files are then taken
/// to be equal where these two agree.
#[derive(Debug)]
pub struct Md {
    modified: u128,
    len: u64,
    done: bool,
}

impl Md {
    /// A reader for a file that was last changed `modified` nanoseconds after
    /// the epoch and is `len` bytes long.
    pub fn new(modified: u128, len: u64) -> (r: Self)
        ensures
            r.content() == md_bytes(modified, len),
            r.position() == 0,
    {
        Md { modified, len, done: false }
    }
}

impl Reader for Md {
    closed spec fn content(&self) -> Seq<u8> {
        md_bytes(self.modified, self.len)
    }

    closed spec fn position(&self) -> nat {
        if self.done {
            MD_SIZE as nat
        } else {
            0
        }
    }

    /// The first call hands out all 24 bytes, and fails where the buffer has
    /// no room for them; every later call hands out nothing.
    fn read(&mut self, buffer: &mut [u8]) -> (r: Result<usize, Error>)
        ensures
            old(self).position() == 0 && old(buffer)@.len() >= MD_SIZE ==> r == Ok::<usize, Error>(
                MD_SIZE,
            ),
            old(self).position() != 0 ==> r == Ok::<usize, Error>(0),
            old(self).position() == 0 && old(buffer)@.len() < MD_SIZE ==> r is Err,
    {
        proof {
            lemma_be_bytes_len(self.modified as nat, 16);
            lemma_be_bytes_len(self.len as nat, 8);
        }
        if self.done {
            return Ok(0);
        }
        self.done = true;
        if buffer.len() < MD_SIZE {
            return Err(other_error("Md reader needs at least 255 bytes buffer"));
        }
        put_be(buffer, 0, 16, self.modified);
        let ghost first = buffer@;
        put_be(buffer, 16, 8, self.len as u128);
        proof {
            assert(buffer@.subrange(0, 16) =~= first.subrange(0, 16));
            assert(buffer@.take(24) =~= buffer@.subrange(0, 16) + buffer@.subrange(16, 24));
            assert(md_bytes(self.modified, self.len).subrange(0, 24) =~= md_bytes(
                self.modified,
                self.len,
            ));
        }
        Ok(MD_SIZE)
    }

    /// Metadata cannot be mapped: the call fails, with [`no_mapping`].
    fn mmap(&mut self) -> (r: Result<&[u8], String>)
        ensures
            r matches Err(detail) && detail@ == no_mapping(),
    {
        Err("Md reader doesn't support mapping file into memory".to_owned())
    }
}

/// The message with which [`Md`] refuses to map a file into memory.
pub open spec fn no_mapping() -> Seq<char> {
    "Md reader doesn't support mapping file into memory"@
}

} // verus!
