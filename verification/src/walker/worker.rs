//! What a hashing worker does with one file, and with the outcome.

use crate::breaker::Breaker;
use crate::collector::Tolerance;
use crate::hasher::Hasher;
use crate::reader::Reader;
use crate::walker::strategy::ReadingStrategy;
use crate::walker::E;
use std::io::Error;
use vstd::prelude::*;
use vstd::slice::{slice_subrange, slice_to_vec};

verus! {

/// The size of the buffer through which a file is read piece by piece.
pub const BUFFER_SIZE: usize = 32768;

/// What a hashing worker tells the coordinator.
#[derive(Debug)]
pub enum Action {
    /// A job is done. The fields are the worker's number, the digests of the
    /// files that were hashed, and the errors of those that were not.
    Processed(u16, Vec<(String, Vec<u8>)>, Vec<(String, E)>),
    /// The worker has shut down.
    WorkerShutdownNotification,
    /// A file caused an error that ends the run.
    Error(String, E),
}

/// Reads what is left of the file, piece by piece, and hands each piece to
/// the hasher.
fn feed_buffered<H: Hasher, R: Reader>(reader: &mut R, hasher: &mut H, breaker: &Breaker) -> (r:
    Result<(), E>)
    ensures
        final(reader).content() == old(reader).content(),
        r is Ok ==> final(hasher).absorbed() == old(hasher).absorbed() + old(reader).content().skip(
            old(reader).position() as int,
        ),
        r is Ok ==> final(hasher).finished() == old(hasher).finished(),
        r matches Err(err) ==> err is Aborted || err is ReadingIOError || err is Hasher,
{
    let mut buffer: Vec<u8> = vec![0u8; BUFFER_SIZE];
    let ghost content = reader.content();
    let ghost start = reader.position();
    let ghost fed = Seq::<u8>::empty();
    proof {
        assert(hasher.absorbed() + fed =~= hasher.absorbed());
    }
    loop
        invariant
            buffer@.len() == BUFFER_SIZE,
            reader.content() == content,
            content == old(reader).content(),
            start == old(reader).position(),
            (reader.position() == start && fed == Seq::<u8>::empty()) || (start
                <= reader.position() <= content.len() && fed == content.subrange(
                start as int,
                reader.position() as int,
            )),
            hasher.finished() == old(hasher).finished(),
            hasher.absorbed() == old(hasher).absorbed() + fed,
        ensures
            reader.content() == old(reader).content(),
            hasher.finished() == old(hasher).finished(),
            hasher.absorbed() == old(hasher).absorbed() + old(reader).content().skip(
                old(reader).position() as int,
            ),
        decreases content.len() - reader.position(),
    {
        if breaker.is_aborted() {
            return Err(E::Aborted);
        }
        let ghost before = reader.position();
        let bytes_read: usize = match reader.read(buffer.as_mut_slice()) {
            Ok(n) => n,
            Err(err) => {
                return Err(E::from_io(err));
            },
        };
        if bytes_read == 0 {
            proof {
                assert(fed =~= content.skip(start as int));
            }
            break ;
        }
        let piece = slice_subrange(buffer.as_slice(), 0, bytes_read);
        proof {
            assert(piece@ =~= buffer@.take(bytes_read as int));
            let longer = fed + piece@;
            assert(longer =~= content.subrange(start as int, before + bytes_read));
            assert((hasher.absorbed() + piece@) =~= old(hasher).absorbed() + longer);
            fed = longer;
        }
        match hasher.absorb(piece) {
            Ok(()) => {},
            Err(detail) => {
                return Err(E::hasher(detail));
            },
        }
    }
    Ok(())
}

/// Reads what is left of the file into memory, and hands it to the hasher in
/// one piece.
fn feed_complete<H: Hasher, R: Reader>(reader: &mut R, hasher: &mut H, breaker: &Breaker) -> (r:
    Result<(), E>)
    ensures
        final(reader).content() == old(reader).content(),
        r is Ok ==> final(hasher).absorbed() == old(hasher).absorbed() + old(reader).content().skip(
            old(reader).position() as int,
        ),
        r is Ok ==> final(hasher).finished() == old(hasher).finished(),
        r matches Err(err) ==> err is Aborted || err is ReadingIOError || err is Hasher,
{
    let mut buffer: Vec<u8> = vec![0u8; BUFFER_SIZE];
    let mut bytes: Vec<u8> = Vec::new();
    let ghost content = reader.content();
    let ghost start = reader.position();
    loop
        invariant
            buffer@.len() == BUFFER_SIZE,
            reader.content() == content,
            content == old(reader).content(),
            start == old(reader).position(),
            (reader.position() == start && bytes@ == Seq::<u8>::empty()) || (start
                <= reader.position() <= content.len() && bytes@ == content.subrange(
                start as int,
                reader.position() as int,
            )),
            *hasher == *old(hasher),
        ensures
            reader.content() == old(reader).content(),
            bytes@ == old(reader).content().skip(old(reader).position() as int),
            *hasher == *old(hasher),
        decreases content.len() - reader.position(),
    {
        if breaker.is_aborted() {
            return Err(E::Aborted);
        }
        let ghost before = reader.position();
        let bytes_read: usize = match reader.read(buffer.as_mut_slice()) {
            Ok(n) => n,
            Err(err) => {
                return Err(E::from_io(err));
            },
        };
        if bytes_read == 0 {
            proof {
                assert(bytes@ =~= content.skip(start as int));
            }
            break ;
        }
        let piece = slice_subrange(buffer.as_slice(), 0, bytes_read);
        proof {
            assert(piece@ =~= buffer@.take(bytes_read as int));
            assert(bytes@ + piece@ =~= content.subrange(start as int, before + bytes_read));
        }
        bytes.extend_from_slice(piece);
    }
    match hasher.absorb(bytes.as_slice()) {
        Ok(()) => Ok(()),
        Err(detail) => Err(E::hasher(detail)),
    }
}

/// Hands the file to the hasher in the way that `strategy` names. A scenario
/// names no way: it has to be resolved first.
fn apply<H: Hasher, R: Reader>(
    strategy: &ReadingStrategy,
    reader: &mut R,
    hasher: &mut H,
    breaker: &Breaker,
) -> (r: Result<(), E>)
    ensures
        final(reader).content() == old(reader).content(),
        strategy is Scenario ==> r == Err::<(), E>(E::NestedScenarioStrategy),
        r is Ok ==> final(hasher).finished() == old(hasher).finished(),
        r is Ok ==> final(hasher).absorbed() == old(hasher).absorbed() + (if strategy
            is MemoryMapped {
            old(reader).content()
        } else {
            old(reader).content().skip(old(reader).position() as int)
        }),
        r matches Err(err) ==> err is Aborted || err is ReadingIOError || err is Hasher || err
            is Reader || (strategy is Scenario && err is NestedScenarioStrategy),
{
    match strategy {
        ReadingStrategy::Buffer => feed_buffered(reader, hasher, breaker),
        ReadingStrategy::Complete => feed_complete(reader, hasher, breaker),
        ReadingStrategy::MemoryMapped => {
            let mapped = match reader.mmap() {
                Ok(mapped) => mapped,
                Err(detail) => {
                    return Err(E::reader(detail));
                },
            };
            match hasher.absorb(mapped) {
                Ok(()) => Ok(()),
                Err(detail) => Err(E::hasher(detail)),
            }
        },
        ReadingStrategy::Scenario(_) => Err(E::NestedScenarioStrategy),
    }
}

/// Whether a file is refused before it is read: it is gone; or, under a
/// scenario, its size could not be had, or no strategy can be chosen for it.
pub open spec fn refused(
    present: bool,
    size: Result<u64, Error>,
    reading_strategy: &ReadingStrategy,
) -> bool {
    if !present {
        true
    } else if reading_strategy is Scenario {
        match size {
            Err(_) => true,
            Ok(len) => reading_strategy.chosen(len) is Err,
        }
    } else {
        false
    }
}

/// Whether `err` is the error that is owed to a file that is refused before
/// it is read: that the file does not exist, where it is gone; else the
/// error of asking for its size; else the error of choosing a strategy for
/// its size.
pub open spec fn owed(
    path: Seq<char>,
    present: bool,
    size: Result<u64, Error>,
    reading_strategy: &ReadingStrategy,
    err: E,
) -> bool {
    if !present {
        err matches E::FileDoesNotExists(gone) && gone@ == path
    } else {
        match size {
            Err(unknown) => err == E::ReadingIOError(unknown),
            Ok(len) => reading_strategy.chosen(len) == Err::<ReadingStrategy, E>(err),
        }
    }
}

/// Computes the digest of one file.
///
/// `path` names the file, `exists` says whether it is still there, and `size`
/// is its size, or the error of asking for it; the size is looked at only
/// where the strategy is a scenario. `reader` is bound to the file.
///
/// Whatever the strategy, the digest of a file read from its start is the
/// digest of the file's content under `H`.
///
/// The breaker is asked first, and again before every read: at each of
/// these points the call may fail with `Aborted`. Apart from that, a file
/// that is gone fails with `FileDoesNotExists`; under a scenario, a size
/// that could not be had fails with the error of asking for it, and a size
/// for which no strategy can be chosen fails with the error of choosing.
/// Only where none of these holds is the file read, and then the call fails
/// only where the reader or the hasher does.
pub fn hash_file<H: Hasher, R: Reader>(
    path: &str,
    exists: bool,
    size: Result<u64, Error>,
    reader: &mut R,
    reading_strategy: &ReadingStrategy,
    breaker: &Breaker,
) -> (r: Result<Vec<u8>, E>)
    ensures
        final(reader).content() == old(reader).content(),
        r matches Ok(digest) ==> {
            &&& !refused(exists, size, reading_strategy)
            &&& old(reader).position() == 0 ==> digest@ == H::digest_of(old(reader).content())
        },
        refused(exists, size, reading_strategy) ==> r is Err && (r->Err_0 is Aborted || owed(
            path@,
            exists,
            size,
            reading_strategy,
            r->Err_0,
        )),
        !refused(exists, size, reading_strategy) ==> (r matches Err(err) ==> (err is Aborted || err
            is ReadingIOError || err is Reader || err is Hasher)),
{
    if breaker.is_aborted() {
        return Err(E::Aborted);
    }
    if !exists {
        return Err(E::FileDoesNotExists(path.to_owned()));
    }
    let mut hasher = H::new();
    let ghost content = reader.content();
    let outcome = match reading_strategy {
        ReadingStrategy::Scenario(_) => {
            let len: u64 = match size {
                Ok(len) => len,
                Err(err) => {
                    return Err(E::from_io(err));
                },
            };
            match reading_strategy.select(len) {
                Ok(strategy) => apply(strategy, reader, &mut hasher, breaker),
                Err(err) => {
                    return Err(err);
                },
            }
        },
        _ => apply(reading_strategy, reader, &mut hasher, breaker),
    };
    match outcome {
        Ok(()) => {},
        Err(err) => {
            return Err(err);
        },
    }
    proof {
        assert(content.skip(0) =~= content);
        assert(Seq::<u8>::empty() + content =~= content);
    }
    match hasher.finish() {
        Ok(()) => {},
        Err(detail) => {
            return Err(E::hasher(detail));
        },
    }
    match hasher.hash() {
        Ok(digest) => Ok(slice_to_vec(digest)),
        Err(detail) => Err(E::hasher(detail)),
    }
}

/// Jobs are worked through by workers; this type holds their rules.
pub struct Worker {}

impl Worker {
    /// Takes the outcome of hashing one file of a job.
    ///
    /// A digest joins the digests of the job. That the run was aborted ends
    /// the job, and so does any error under `StopOnErrors`: the error is
    /// handed back as the message to send, and nothing is recorded. Any other
    /// error joins the reports of the job.
    pub fn run(
        path: String,
        outcome: Result<Vec<u8>, E>,
        tolerance: &Tolerance,
        collected: &mut Vec<(String, Vec<u8>)>,
        reports: &mut Vec<(String, E)>,
    ) -> (r: Option<Action>)
        ensures
            outcome matches Ok(digest) ==> r is None && final(collected)@ == old(collected)@.push(
                (path, digest),
            ) && final(reports)@ == old(reports)@,
            outcome matches Err(err) ==> final(collected)@ == old(collected)@ && if tolerance.stops()
                || err is Aborted {
                r == Some(Action::Error(path, err)) && final(reports)@ == old(reports)@
            } else {
                r is None && final(reports)@ == old(reports)@.push((path, err))
            },
    {
        match outcome {
            Ok(digest) => {
                collected.push((path, digest));
                None
            },
            Err(err) => {
                if matches!(err, E::Aborted) {
                    return Some(Action::Error(path, err));
                }
                match tolerance {
                    Tolerance::StopOnErrors => Some(Action::Error(path, err)),
                    _ => {
                        reports.push((path, err));
                        None
                    },
                }
            },
        }
    }
}

} // verus!
