//! The walker: what is collected, what is hashed, and the summary digest.
//!
//! A walker goes through three states: it is idle, then its paths are
//! collected, then they are hashed. Collecting starts anew from any state.
//! The walker keeps the state; its driver runs the workers and hands in what
//! they bring.

use crate::breaker::Breaker;
use crate::collector;
use crate::walker::hashing::{is_failed, job_size, HashItem, Hashing};
use crate::walker::options::Options;
use crate::walker::progress::{Progress, ProgressChannel, Tick};
use crate::walker::E;
use std::sync::mpsc::Receiver;
use vstd::prelude::*;

verus! {

/// The items for paths that were collected without an error: none of them is
/// hashed yet.
pub open spec fn unhashed(paths: Seq<String>) -> Seq<HashItem> {
    paths.map_values(|path: String| (path, None::<Result<Vec<u8>, E>>))
}

/// The items for paths on which collecting failed, each with its error as
/// the walker sees it.
pub open spec fn uncollected(invalid: Seq<(String, collector::E)>) -> Seq<HashItem> {
    invalid.map_values(
        |pair: (String, collector::E)|
            (
                pair.0,
                Some(
                    Err::<Vec<u8>, E>(
                        match pair.1 {
                            collector::E::Aborted => E::Aborted,
                            _ => E::CollectorError(pair.1),
                        },
                    ),
                ),
            ),
    )
}

/// Whether every item is in a state that collecting leaves: not hashed yet,
/// or failed.
pub open spec fn all_collected(items: Seq<HashItem>) -> bool {
    forall|i: int| 0 <= i < items.len() ==> (#[trigger] items[i]).1 is None || is_failed(items[i])
}

/// Collects paths, hashes the files and keeps the outcome.
#[derive(Debug)]
pub struct Walker {
    opt: Option<Options>,
    breaker: Breaker,
    paths: Vec<HashItem>,
    hash: Option<Vec<u8>>,
    progress: Option<ProgressChannel>,
}

impl Walker {
    /// The options of the walker.
    pub closed spec fn options(&self) -> Option<Options> {
        self.opt
    }

    /// The paths of the walker, each with the state of its hashing.
    pub closed spec fn items(&self) -> Seq<HashItem> {
        self.paths@
    }

    /// The summary digest, once the paths are hashed.
    pub closed spec fn summary(&self) -> Option<Vec<u8>> {
        self.hash
    }

    /// Whether the walker reports progress.
    pub closed spec fn reporting(&self) -> bool {
        self.progress is Some
    }

    /// Whether the receiving end of the progress channel is still with the
    /// walker.
    pub closed spec fn receiver_waiting(&self) -> bool {
        self.progress matches Some((_, Some(_)))
    }

    /// An idle walker with the given options. Where the options ask for
    /// progress, a channel is opened.
    pub fn new(opt: Options) -> (r: Self)
        ensures
            r.options() == Some(opt),
            r.items() == Seq::<HashItem>::empty(),
            r.summary() is None,
            r.reporting() == opt.progress is Some,
            r.receiver_waiting() == opt.progress is Some,
    {
        let progress = match opt.progress {
            Some(capacity) => Some(Progress::channel(capacity)),
            None => None,
        };
        Walker { opt: Some(opt), breaker: Breaker::new(), paths: Vec::new(), hash: None, progress }
    }

    /// Starts collecting: whatever was collected or hashed before is
    /// forgotten, and the breaker is reset. Fails where the walker has no
    /// options.
    pub fn collect(&mut self) -> (r: Result<(), E>)
        ensures
            final(self).options() == old(self).options(),
            final(self).items() == Seq::<HashItem>::empty(),
            final(self).summary() is None,
            final(self).reporting() == old(self).reporting(),
            final(self).receiver_waiting() == old(self).receiver_waiting(),
            r is Ok <==> old(self).options() is Some,
            r matches Err(err) ==> err is IsNotInited,
    {
        self.reset();
        match &self.opt {
            Some(_) => Ok(()),
            None => Err(E::IsNotInited),
        }
    }

    /// Takes what collecting one entry has brought: the paths collected,
    /// which are not hashed yet, and behind them the paths that failed, each
    /// with its error.
    pub fn collected(&mut self, collected: Vec<String>, invalid: Vec<(String, collector::E)>)
        ensures
            final(self).options() == old(self).options(),
            final(self).summary() == old(self).summary(),
            final(self).items() == old(self).items() + unhashed(collected@) + uncollected(
                invalid@,
            ),
            all_collected(old(self).items()) ==> all_collected(final(self).items()),
            final(self).reporting() == old(self).reporting(),
            final(self).receiver_waiting() == old(self).receiver_waiting(),
    {
        let ghost start = self.paths@;
        proof {
            assert(unhashed(collected@.take(0)) =~= Seq::<HashItem>::empty());
        }
        for path in it: collected.into_iter()
            invariant
                it.seq() == collected@,
                self.opt == old(self).opt,
                self.hash == old(self).hash,
                self.progress == old(self).progress,
                self.paths@ == start + unhashed(collected@.take(it.index())),
        {
            proof {
                let k = it.index();
                assert(collected@.take(k + 1) =~= collected@.take(k).push(path));
                assert(unhashed(collected@.take(k + 1)) =~= unhashed(collected@.take(k)).push(
                    (path, None::<Result<Vec<u8>, E>>),
                ));
            }
            self.paths.push((path, None));
        }
        assert(collected@.take(collected@.len() as int) =~= collected@);
        let ghost middle = self.paths@;
        proof {
            assert(uncollected(invalid@.take(0)) =~= Seq::<HashItem>::empty());
        }
        for pair in it: invalid.into_iter()
            invariant
                it.seq() == invalid@,
                self.opt == old(self).opt,
                self.hash == old(self).hash,
                self.progress == old(self).progress,
                self.paths@ == middle + uncollected(invalid@.take(it.index())),
        {
            let (path, err) = pair;
            let ghost seen = err;
            let err = E::from_collector(err);
            proof {
                let k = it.index();
                assert(invalid@.take(k + 1) =~= invalid@.take(k).push((path, seen)));
                assert(uncollected(invalid@.take(k + 1)) =~= uncollected(invalid@.take(k)).push(
                    (path, Some(Err::<Vec<u8>, E>(err))),
                ));
            }
            self.paths.push((path, Some(Err(err))));
        }
        assert(invalid@.take(invalid@.len() as int) =~= invalid@);
    }

    /// Starts hashing. Without paths there is nothing to do, and the summary
    /// digest is empty: `None` is handed out. Else the paths leave the
    /// walker and a hashing run over them is handed out. Fails where there
    /// are paths and the walker has no options.
    pub fn hash(&mut self) -> (r: Result<Option<Hashing>, E>)
        ensures
            final(self).options() == old(self).options(),
            final(self).summary() == old(self).summary(),
            final(self).reporting() == old(self).reporting(),
            final(self).receiver_waiting() == old(self).receiver_waiting(),
            old(self).items().len() == 0 ==> {
                &&& r matches Ok(None)
                &&& final(self).items() == old(self).items()
            },
            old(self).items().len() > 0 && old(self).options() is None ==> {
                &&& r matches Err(E::IsNotInited)
                &&& final(self).items() == old(self).items()
            },
            old(self).items().len() > 0 && old(self).options() is Some ==> {
                &&& final(self).items() == Seq::<HashItem>::empty()
                &&& r matches Ok(Some(run)) && {
                    &&& run.queue() == old(self).items()
                    &&& run.results() == Seq::<HashItem>::empty()
                    &&& run.job() == Seq::<String>::empty()
                    &&& run.tolerance() == old(self).options()->0.tolerance
                    &&& run.total() == old(self).items().len()
                    &&& run.per_job() == job_size(old(self).items().len())
                }
            },
    {
        if self.paths.is_empty() {
            return Ok(None);
        }
        let tolerance = match &self.opt {
            Some(opt) => opt.tolerance,
            None => {
                return Err(E::IsNotInited);
            },
        };
        let mut paths: Vec<HashItem> = Vec::new();
        std::mem::swap(&mut paths, &mut self.paths);
        Ok(Some(Hashing::new(paths, tolerance)))
    }

    /// Takes what a hashing run has brought: the summary digest and the
    /// results, which become the paths of the walker. A new progress channel
    /// is opened for the next run.
    pub fn hashed(&mut self, digest: Vec<u8>, items: Vec<HashItem>)
        ensures
            final(self).options() == old(self).options(),
            final(self).items() == items@,
            final(self).summary() == Some(digest),
            final(self).reporting() == (old(self).options() matches Some(opt) && opt.progress
                is Some),
            final(self).receiver_waiting() == final(self).reporting(),
    {
        self.paths = items;
        self.hash = Some(digest);
        self.progress = match &self.opt {
            Some(opt) => match opt.progress {
                Some(capacity) => Some(Progress::channel(capacity)),
                None => None,
            },
            None => None,
        };
    }

    /// A handle to the breaker of the walker, by which collecting and
    /// hashing are aborted: a handle to the walker's own flag.
    pub fn breaker(&self) -> (r: Breaker)
        ensures
            r == self.flag(),
    {
        self.breaker.clone()
    }

    /// The walker's own handle to its abort flag.
    pub closed spec fn flag(&self) -> Breaker {
        self.breaker
    }

    /// The number of paths.
    pub fn count(&self) -> (r: usize)
        ensures
            r == self.items().len(),
    {
        self.paths.len()
    }

    /// The receiving end of the progress channel. It can be taken once for
    /// each channel; a new channel is opened after each hashing run.
    pub fn progress(&mut self) -> (r: Option<Receiver<Tick>>)
        ensures
            final(self).options() == old(self).options(),
            final(self).items() == old(self).items(),
            final(self).summary() == old(self).summary(),
            final(self).reporting() == old(self).reporting(),
            r is Some <==> old(self).receiver_waiting(),
            !final(self).receiver_waiting(),
    {
        let mut channel: Option<ProgressChannel> = None;
        std::mem::swap(&mut channel, &mut self.progress);
        match channel {
            Some((progress, rx)) => {
                self.progress = Some((progress, None));
                rx
            },
            None => None,
        }
    }

    /// The reporting end of the progress channel, for the workers.
    pub fn reporter(&self) -> (r: Option<Progress>)
        ensures
            r is Some <==> self.reporting(),
    {
        match &self.progress {
            Some((progress, _)) => Some(progress.clone()),
            None => None,
        }
    }

    /// The options of the walker.
    pub fn settings(&self) -> (r: Option<&Options>)
        ensures
            r is Some <==> self.options() is Some,
            r matches Some(opt) ==> self.options() == Some(*opt),
    {
        self.opt.as_ref()
    }

    /// The summary digest: that of the last hashing run, or nothing at all
    /// where no run has ended yet.
    pub fn digest(&self) -> (r: &[u8])
        ensures
            r@ == (match self.summary() {
                Some(digest) => digest@,
                None => Seq::<u8>::empty(),
            }),
    {
        match &self.hash {
            Some(digest) => digest.as_slice(),
            None => &[],
        }
    }

    /// Goes through the paths of the walker, from the first.
    pub fn iter(&self) -> (r: WalkerIter<'_>)
        ensures
            r.walker == self,
            r.pos == 0,
    {
        WalkerIter { walker: self, pos: 0 }
    }

    /// Forgets what was collected and hashed, and resets the breaker.
    fn reset(&mut self)
        ensures
            final(self).opt == old(self).opt,
            final(self).progress == old(self).progress,
            final(self).paths@ == Seq::<HashItem>::empty(),
            final(self).hash is None,
    {
        self.paths = Vec::new();
        self.hash = None;
        self.breaker.reset();
    }
}

/// A position among the paths of a walker.
pub struct WalkerIter<'a> {
    /// The walker.
    pub walker: &'a Walker,
    /// The number of paths that were handed out.
    pub pos: usize,
}

impl<'a> WalkerIter<'a> {
    /// Hands out the next path with its state, if one is left.
    pub fn next(&mut self) -> (r: Option<&'a HashItem>)
        ensures
            final(self).walker == old(self).walker,
            old(self).pos < old(self).walker.items().len() ==> final(self).pos == old(self).pos + 1
                && (r matches Some(item) && *item == old(self).walker.items()[old(self).pos as int]),
            old(self).pos >= old(self).walker.items().len() ==> r is None && final(self).pos
                == old(self).pos,
    {
        if self.pos >= self.walker.paths.len() {
            None
        } else {
            self.pos += 1;
            Some(&self.walker.paths[self.pos - 1])
        }
    }
}

} // verus!
