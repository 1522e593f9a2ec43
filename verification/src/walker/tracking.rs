//! Telling whether a tree has changed since it was last looked at.
//!
//! The summary digest of a run is kept under a name that stands for the
//! options of the walker. The next run under the same name compares its
//! summary digest with the one kept, and keeps its own in turn.

use crate::hasher::blake::Blake;
use crate::hasher::Hasher;
use crate::text::{bytes_eq, string_of};
use crate::walker::options::Options;
use vstd::prelude::*;
use vstd::slice::slice_to_vec;

verus! {

/// The name of the folder in which summary digests are kept.
pub fn get_storage_name() -> (r: String)
    ensures
        r@ == "tracking"@,
{
    "tracking".to_owned()
}

/// The character for a hexadecimal digit.
pub open spec fn hex_digit(digit: u8) -> char {
    if digit < 10 {
        (48 + digit) as u8 as char
    } else {
        (87 + digit) as u8 as char
    }
}

/// `bytes` in lower-case hexadecimal, two digits for each byte.
pub open spec fn hex(bytes: Seq<u8>) -> Seq<char>
    decreases bytes.len(),
{
    if bytes.len() == 0 {
        Seq::empty()
    } else {
        hex(bytes.drop_last()).push(hex_digit(bytes.last() / 16)).push(
            hex_digit(bytes.last() % 16),
        )
    }
}

fn digit(value: u8) -> (r: char)
    requires
        value < 16,
    ensures
        r == hex_digit(value),
{
    if value < 10 {
        (48 + value) as char
    } else {
        (87 + value) as char
    }
}

/// Computes [`hex`].
pub fn to_hex(bytes: &[u8]) -> (r: String)
    ensures
        r@ == hex(bytes@),
{
    let mut chars: Vec<char> = Vec::new();
    let mut i: usize = 0;
    assert(bytes@.take(0) =~= Seq::<u8>::empty());
    while i < bytes.len()
        invariant
            i <= bytes@.len(),
            chars@ == hex(bytes@.take(i as int)),
        decreases bytes@.len() - i,
    {
        proof {
            assert(bytes@.take(i + 1).drop_last() =~= bytes@.take(i as int));
            assert(bytes@.take(i + 1).last() == bytes@[i as int]);
        }
        let byte: u8 = bytes[i];
        chars.push(digit(byte / 16));
        chars.push(digit(byte % 16));
        i += 1;
    }
    assert(bytes@.take(i as int) =~= bytes@);
    string_of(chars.as_slice())
}

/// The name under which the summary digest for `options` is kept: the
/// BLAKE3 hash of the options written out, in hexadecimal.
pub open spec fn alias_of(options: &Options) -> Seq<char> {
    hex(Blake::digest_of(options.fingerprint()))
}

/// Computes [`alias_of`].
pub fn alias(options: &Options) -> (r: String)
    ensures
        r@ == alias_of(options),
{
    let written = options.hash();
    let mut hasher = Blake::new();
    let absorbed = hasher.absorb(written.as_slice());
    assert(absorbed is Ok);
    assert(hasher.absorbed() =~= written@);
    let finished = hasher.finish();
    assert(finished is Ok);
    match hasher.hash() {
        Ok(digest) => to_hex(digest),
        Err(_) => String::new(),
    }
}

/// What comparing makes of the summary digest `kept` and the summary digest
/// `current` of a new run: whether the two are the same, and what is kept
/// from now on, which is `current`.
pub open spec fn compared(kept: Seq<u8>, current: Seq<u8>) -> (bool, Seq<u8>) {
    (kept == current, current)
}

/// What is kept between two runs: the summary digest of the earlier run.
#[derive(Debug)]
pub struct PreviousHash {
    /// The summary digest that was kept last. Empty before the first run.
    pub hash: Vec<u8>,
}

impl PreviousHash {
    /// What is kept before the first run: nothing.
    pub fn new() -> (r: Self)
        ensures
            r.hash@ == Seq::<u8>::empty(),
    {
        PreviousHash { hash: Vec::new() }
    }

    /// Compares the summary digest of a run with the one kept, and keeps the
    /// new one. Returns whether the two are the same.
    pub fn is_same(&mut self, current: &[u8]) -> (same: bool)
        ensures
            (same, final(self).hash@) == compared(old(self).hash@, current@),
    {
        let same = bytes_eq(self.hash.as_slice(), current);
        self.hash = slice_to_vec(current);
        same
    }
}

impl Default for PreviousHash {
    fn default() -> (r: Self)
        ensures
            r.hash@ == Seq::<u8>::empty(),
    {
        PreviousHash::new()
    }
}

/// After a change the first comparison says "changed", and the next one,
/// with nothing changed in between, says "same".
///
/// `kept` is the summary digest that was kept before the change, and
/// `current` the summary digest of the tree as it is now, in the first
/// comparison and in the second.
pub proof fn theorem_round_trip(kept: Seq<u8>, current: Seq<u8>)
    ensures
        kept != current ==> !compared(kept, current).0,
        compared(compared(kept, current).1, current).0,
{
}

} // verus!
