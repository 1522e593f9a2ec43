//! The coordinator of a hashing run.
//!
//! Hashing is done by a pool of workers; what they are given and what becomes
//! of their answers is decided here. The coordinator owns the queue of
//! collected paths and the list of results. Its driver performs what the
//! coordinator cannot do itself (it asks the filesystem whether a path is
//! still there, and it talks to the workers) and hands every answer back.

use crate::collector::Tolerance;
use crate::hasher::Hasher;
use crate::text::{path_le, path_order};
use crate::walker::E;
use vstd::prelude::*;
use vstd::slice::slice_to_vec;

verus! {

/// A path and the state of its hashing: `None` while the path is collected
/// and not hashed yet, `Some(Ok(digest))` once it is hashed, `Some(Err(..))`
/// where collecting or hashing it failed.
pub type HashItem = (String, Option<Result<Vec<u8>, E>>);

/// The least number of paths in a job.
pub const MIN_PATHS_PER_JOB: usize = 2;

/// The greatest number of paths in a job.
pub const MAX_PATHS_PER_JOB: usize = 500;

/// The size of a job for `total` collected paths: a twentieth of them, rounded
/// up, and never fewer than 2 nor more than 500.
pub open spec fn job_size(total: nat) -> nat {
    let twentieth = (total + 19) / 20;
    if twentieth < 2 {
        2
    } else if twentieth > 500 {
        500
    } else {
        twentieth
    }
}

/// Computes [`job_size`].
pub fn paths_per_job(total: usize) -> (r: usize)
    ensures
        r == job_size(total as nat),
        MIN_PATHS_PER_JOB <= r <= MAX_PATHS_PER_JOB,
{
    let twentieth: usize = total / 20 + if total % 20 == 0 { 0 } else { 1 };
    if twentieth < MIN_PATHS_PER_JOB {
        MIN_PATHS_PER_JOB
    } else if twentieth > MAX_PATHS_PER_JOB {
        MAX_PATHS_PER_JOB
    } else {
        twentieth
    }
}

/// Whether an item carries an error.
pub open spec fn is_failed(item: HashItem) -> bool {
    item.1 matches Some(Err(_))
}

/// Whether an item carries a digest.
pub open spec fn is_hashed(item: HashItem) -> bool {
    item.1 matches Some(Ok(_))
}

/// Whether every item is in a state that hashing leaves: hashed, or failed.
pub open spec fn all_settled(items: Seq<HashItem>) -> bool {
    forall|i: int| 0 <= i < items.len() ==> is_hashed(#[trigger] items[i]) || is_failed(items[i])
}

/// Whether no item carries a digest.
pub open spec fn none_hashed(items: Seq<HashItem>) -> bool {
    forall|i: int| 0 <= i < items.len() ==> !is_hashed(#[trigger] items[i])
}

/// The failed items at the front of the queue, in their order.
pub open spec fn failed_front(queue: Seq<HashItem>) -> Seq<HashItem>
    decreases queue.len(),
{
    if queue.len() == 0 || !is_failed(queue[0]) {
        Seq::empty()
    } else {
        seq![queue[0]] + failed_front(queue.drop_first())
    }
}

/// The queue without the failed items at its front.
pub open spec fn pending(queue: Seq<HashItem>) -> Seq<HashItem>
    decreases queue.len(),
{
    if queue.len() == 0 || !is_failed(queue[0]) {
        queue
    } else {
        pending(queue.drop_first())
    }
}

/// A queue is its failed front followed by what is pending: when a job is
/// put together no item is lost.
pub proof fn lemma_front_then_pending(queue: Seq<HashItem>)
    ensures
        queue == failed_front(queue) + pending(queue),
    decreases queue.len(),
{
    if queue.len() == 0 || !is_failed(queue[0]) {
        assert(queue =~= failed_front(queue) + pending(queue));
    } else {
        lemma_front_then_pending(queue.drop_first());
        assert(queue =~= seq![queue[0]] + queue.drop_first());
        assert(queue =~= failed_front(queue) + pending(queue));
    }
}

/// The items that stand for errors reported with their paths.
pub open spec fn recorded(reports: Seq<(String, E)>) -> Seq<HashItem> {
    reports.map_values(|report: (String, E)| (report.0, Some(Err::<Vec<u8>, E>(report.1))))
}

/// The items that stand for digests reported with their paths.
pub open spec fn hashed(digests: Seq<(String, Vec<u8>)>) -> Seq<HashItem> {
    digests.map_values(|digest: (String, Vec<u8>)| (digest.0, Some(Ok::<Vec<u8>, E>(digest.1))))
}

/// What an item adds to the summary: its digest, if it has one.
pub open spec fn contribution(item: HashItem) -> Seq<u8> {
    match item.1 {
        Some(Ok(digest)) => digest@,
        _ => Seq::empty(),
    }
}

/// The bytes that the summary hasher absorbs for `items`: the digests of the
/// items that have one, in the order of the items.
pub open spec fn digest_input(items: Seq<HashItem>) -> Seq<u8>
    decreases items.len(),
{
    if items.len() == 0 {
        Seq::empty()
    } else {
        digest_input(items.drop_last()) + contribution(items.last())
    }
}

/// The number of items that carry a digest.
pub open spec fn hashed_count(items: Seq<HashItem>) -> nat
    decreases items.len(),
{
    if items.len() == 0 {
        0
    } else {
        hashed_count(items.drop_last()) + if is_hashed(items.last()) {
            1nat
        } else {
            0nat
        }
    }
}

/// Whether the items stand in the order of their paths.
pub open spec fn sorted_by_path(items: Seq<HashItem>) -> bool {
    forall|i: int, j: int| 0 <= i < j < items.len() ==> path_le(items[i].0@, items[j].0@)
}

/// The summary digest of `items` under the hasher `H`: empty where no item
/// carries a digest, else the digest of [`digest_input`].
pub open spec fn summary_of<H: Hasher>(items: Seq<HashItem>) -> Seq<u8> {
    if hashed_count(items) == 0 {
        Seq::empty()
    } else {
        H::digest_of(digest_input(items))
    }
}

proof fn lemma_hashed_somewhere(items: Seq<HashItem>)
    requires
        hashed_count(items) > 0,
    ensures
        !none_hashed(items),
    decreases items.len(),
{
    if is_hashed(items.last()) {
        assert(is_hashed(items[items.len() - 1]));
    } else {
        lemma_hashed_somewhere(items.drop_last());
        let front = items.drop_last();
        let k = choose|k: int| 0 <= k < front.len() && is_hashed(#[trigger] front[k]);
        assert(is_hashed(items[k]));
    }
}

/// `<[T]>::sort_by`, with the order of the paths: the items are rearranged,
/// none is lost or added, and afterwards they stand in the order of their
/// paths.
#[verifier::external_body]
fn sort_by_path(items: &mut Vec<HashItem>)
    ensures
        final(items)@.to_multiset() == old(items)@.to_multiset(),
        sorted_by_path(final(items)@),
{
    items.sort_by(|a, b| path_order(&a.0, &b.0));
}

/// What becomes of a job that was put together for a worker.
#[derive(Clone, Copy, Debug, PartialEq, Eq, Structural)]
pub enum Assignment {
    /// Nothing is left to hash: the workers are told to shut down.
    NoJobs,
    /// The first round is over: the queue ran out after a worker got a job.
    Enough,
    /// The job goes to the worker with this index.
    Worker(usize),
    /// No worker is up to take the job.
    Nobody,
}

/// The first worker that is up, if any.
pub open spec fn first_available(available: Seq<bool>) -> Option<int> {
    if exists|i: int| 0 <= i < available.len() && available[i] {
        Some(
            choose|i: int|
                0 <= i < available.len() && available[i] && forall|j: int|
                    0 <= j < i ==> !available[j],
        )
    } else {
        None
    }
}

/// What becomes of an error on `path`. That the run was aborted ends the
/// run, whatever the tolerance. Any other error ends the run under
/// `StopOnErrors`, bound to its path, and nothing is recorded; otherwise it
/// is recorded with its path and the run goes on.
pub fn check_err(path: String, err: E, tolerance: &Tolerance, hashes: &mut Vec<HashItem>) -> (r:
    Result<(), E>)
    ensures
        err is Aborted ==> r == Err::<(), E>(E::Aborted) && final(hashes)@ == old(hashes)@,
        !(err is Aborted) && tolerance.stops() ==> r == Err::<(), E>(
            E::Bound(path, Box::new(err)),
        ) && final(hashes)@ == old(hashes)@,
        !(err is Aborted) && !tolerance.stops() ==> r is Ok && final(hashes)@ == old(hashes)@.push(
            (path, Some(Err(err))),
        ),
{
    if matches!(err, E::Aborted) {
        return Err(E::Aborted);
    }
    match tolerance {
        Tolerance::StopOnErrors => Err(E::Bound(path, Box::new(err))),
        _ => {
            hashes.push((path, Some(Err(err))));
            Ok(())
        },
    }
}

/// The state of one hashing run.
#[derive(Debug)]
pub struct Hashing {
    paths: Vec<HashItem>,
    hashes: Vec<HashItem>,
    job: Vec<String>,
    per_job: usize,
    total: usize,
    tolerance: Tolerance,
}

impl Hashing {
    /// The paths that are still to be looked at, first in line first.
    pub closed spec fn queue(&self) -> Seq<HashItem> {
        self.paths@
    }

    /// The results so far, in the order in which they came.
    pub closed spec fn results(&self) -> Seq<HashItem> {
        self.hashes@
    }

    /// The job that is being put together.
    pub closed spec fn job(&self) -> Seq<String> {
        self.job@
    }

    /// The number of paths that a job may hold.
    pub closed spec fn per_job(&self) -> nat {
        self.per_job as nat
    }

    /// The number of paths the run started with.
    pub closed spec fn total(&self) -> nat {
        self.total as nat
    }

    /// The tolerance the run was started with.
    pub closed spec fn tolerance(&self) -> Tolerance {
        self.tolerance
    }

    /// Starts a run over `paths`, in their order.
    pub fn new(paths: Vec<HashItem>, tolerance: Tolerance) -> (r: Self)
        ensures
            r.queue() == paths@,
            r.results() == Seq::<HashItem>::empty(),
            r.job() == Seq::<String>::empty(),
            r.total() == paths@.len(),
            r.per_job() == job_size(paths@.len()),
            r.tolerance() == tolerance,
    {
        let total: usize = paths.len();
        Hashing {
            paths,
            hashes: Vec::new(),
            job: Vec::new(),
            per_job: paths_per_job(total),
            total,
            tolerance,
        }
    }

    /// Whether the run goes on. `aborted` is what the breaker answered just
    /// now; the driver asks before it takes each message. A run that was
    /// aborted ends with `Aborted`, whatever the tolerance.
    pub fn proceed(&self, aborted: bool) -> (r: Result<(), E>)
        ensures
            aborted ==> r == Err::<(), E>(E::Aborted),
            !aborted ==> r is Ok,
    {
        if aborted {
            Err(E::Aborted)
        } else {
            Ok(())
        }
    }

    /// Whether any path is left in the queue.
    pub fn has_paths(&self) -> (r: bool)
        ensures
            r == (self.queue().len() > 0),
    {
        !self.paths.is_empty()
    }

    /// The number of results so far.
    pub fn done(&self) -> (r: usize)
        ensures
            r == self.results().len(),
    {
        self.hashes.len()
    }

    /// The number of paths the run started with.
    pub fn count(&self) -> (r: usize)
        ensures
            r == self.total(),
    {
        self.total
    }

    /// The next path that may join the job, taken out of the queue.
    ///
    /// The failed items at the front of the queue are moved to the results as
    /// they are: an error stays on its path. Then, while the job has room, the
    /// path of the first item of the queue is handed out: its driver finds
    /// out whether the file is still there and answers with
    /// [`Hashing::resolve`]. `None` means that the job is complete: it is full,
    /// or the queue has run out.
    pub fn candidate(&mut self) -> (r: Option<String>)
        ensures
            final(self).results() == old(self).results() + failed_front(old(self).queue()),
            final(self).queue().len() + final(self).results().len() + (if r is Some {
                1nat
            } else {
                0nat
            }) == old(self).queue().len() + old(self).results().len(),
            final(self).job() == old(self).job(),
            final(self).per_job() == old(self).per_job(),
            final(self).total() == old(self).total(),
            final(self).tolerance() == old(self).tolerance(),
            all_settled(old(self).results()) ==> all_settled(final(self).results()),
            old(self).job().len() >= old(self).per_job() ==> r is None && final(self).queue()
                == pending(old(self).queue()),
            old(self).job().len() < old(self).per_job() && pending(old(self).queue()).len() == 0
                ==> r is None && final(self).queue() == Seq::<HashItem>::empty(),
            old(self).job().len() < old(self).per_job() && pending(old(self).queue()).len() > 0
                ==> r == Some(pending(old(self).queue())[0].0) && final(self).queue() == pending(
                old(self).queue(),
            ).drop_first(),
    {
        proof {
            assert(self.hashes@ + Seq::<HashItem>::empty() =~= self.hashes@);
            lemma_front_then_pending(self.paths@);
        }
        let ghost moved = Seq::<HashItem>::empty();
        while !self.paths.is_empty() && matches!(self.paths[0].1, Some(Err(_)))
            invariant
                pending(self.paths@) == pending(old(self).paths@),
                moved + failed_front(self.paths@) == failed_front(old(self).paths@),
                self.hashes@ == old(self).hashes@ + moved,
                forall|i: int| 0 <= i < moved.len() ==> is_failed(#[trigger] moved[i]),
                self.job@ == old(self).job@,
                self.per_job == old(self).per_job,
                self.total == old(self).total,
                self.tolerance == old(self).tolerance,
            decreases self.paths@.len(),
        {
            let ghost before = self.paths@;
            let item = self.paths.remove(0);
            proof {
                assert(self.paths@ =~= before.drop_first());
                assert((moved.push(item)) + failed_front(self.paths@) =~= moved + failed_front(
                    before,
                ));
                assert(self.hashes@.push(item) =~= old(self).hashes@ + moved.push(item));
                moved = moved.push(item);
            }
            self.hashes.push(item);
        }
        proof {
            assert(failed_front(self.paths@) =~= Seq::<HashItem>::empty());
            assert(moved + Seq::<HashItem>::empty() =~= moved);
            assert(pending(self.paths@) == self.paths@);
        }
        if self.job.len() >= self.per_job || self.paths.is_empty() {
            return None;
        }
        let ghost before = self.paths@;
        let (path, _) = self.paths.remove(0);
        assert(self.paths@ =~= before.drop_first());
        Some(path)
    }

    /// Takes the answer for a path that [`Hashing::candidate`] handed out. A
    /// path that is still there joins the job. One that is gone becomes an
    /// error, which the tolerance decides on.
    pub fn resolve(&mut self, path: String, exists: bool) -> (r: Result<(), E>)
        ensures
            final(self).queue() == old(self).queue(),
            final(self).per_job() == old(self).per_job(),
            final(self).total() == old(self).total(),
            final(self).tolerance() == old(self).tolerance(),
            exists ==> {
                &&& r is Ok
                &&& final(self).job() == old(self).job().push(path)
                &&& final(self).results() == old(self).results()
            },
            !exists ==> final(self).job() == old(self).job(),
            all_settled(old(self).results()) ==> all_settled(final(self).results()),
            !exists && old(self).tolerance().stops() ==> r == Err::<(), E>(
                E::Bound(path, Box::new(E::FileDoesNotExists(path))),
            ) && final(self).results() == old(self).results(),
            !exists && !old(self).tolerance().stops() ==> {
                &&& r is Ok
                &&& final(self).results() == old(self).results().push(
                    (path, Some(Err(E::FileDoesNotExists(path)))),
                )
            },
    {
        if exists {
            self.job.push(path);
            Ok(())
        } else {
            let err = E::FileDoesNotExists(path.clone());
            check_err(path, err, &self.tolerance, &mut self.hashes)
        }
    }

    /// Hands out the job that was put together and starts an empty one.
    pub fn take_job(&mut self) -> (r: Vec<String>)
        ensures
            r@ == old(self).job(),
            final(self).job() == Seq::<String>::empty(),
            final(self).queue() == old(self).queue(),
            final(self).results() == old(self).results(),
            final(self).per_job() == old(self).per_job(),
            final(self).total() == old(self).total(),
            final(self).tolerance() == old(self).tolerance(),
    {
        let mut job: Vec<String> = Vec::new();
        std::mem::swap(&mut job, &mut self.job);
        job
    }

    /// Decides on a job in the first round, in which every worker in turn is
    /// offered one. An empty job for the first worker means that there is
    /// nothing to hash; an empty job for a later worker ends the round.
    pub fn first_round(worker: usize, job: &Vec<String>) -> (r: Assignment)
        ensures
            r == if job@.len() > 0 {
                Assignment::Worker(worker)
            } else if worker == 0 {
                Assignment::NoJobs
            } else {
                Assignment::Enough
            },
    {
        if !job.is_empty() {
            Assignment::Worker(worker)
        } else if worker == 0 {
            Assignment::NoJobs
        } else {
            Assignment::Enough
        }
    }

    /// Decides on a job that was put together for the worker that has just
    /// answered. An empty job means that nothing is left. Else the job goes
    /// to that worker if it is up, to the first worker that is up if not, and
    /// to nobody where none is.
    pub fn next_round(worker: u16, job: &Vec<String>, available: &Vec<bool>) -> (r: Assignment)
        ensures
            job@.len() == 0 ==> r == Assignment::NoJobs,
            job@.len() > 0 && worker < available@.len() && available@[worker as int] ==> r
                == Assignment::Worker(worker as usize),
            job@.len() > 0 && !(worker < available@.len() && available@[worker as int]) ==> r
                == (match first_available(available@) {
                Some(i) => Assignment::Worker(i as usize),
                None => Assignment::Nobody,
            }),
    {
        if job.is_empty() {
            return Assignment::NoJobs;
        }
        let id: usize = worker as usize;
        if id < available.len() && available[id] {
            return Assignment::Worker(id);
        }
        let mut i: usize = 0;
        while i < available.len()
            invariant
                job@.len() > 0,
                !(worker < available@.len() && available@[worker as int]),
                i <= available@.len(),
                forall|j: int| 0 <= j < i ==> !available@[j],
            decreases available@.len() - i,
        {
            if available[i] {
                return Assignment::Worker(i);
            }
            i += 1;
        }
        Assignment::Nobody
    }

    /// Takes what a worker reports of a job: the errors, which are recorded
    /// unless the tolerance stops on errors, and then the digests. Returns the
    /// numbers for the progress tick: results so far, and paths in all.
    pub fn processed(
        &mut self,
        digests: Vec<(String, Vec<u8>)>,
        reports: Vec<(String, E)>,
    ) -> (tick: (usize, usize))
        ensures
            final(self).queue() == old(self).queue(),
            final(self).job() == old(self).job(),
            final(self).per_job() == old(self).per_job(),
            final(self).total() == old(self).total(),
            final(self).tolerance() == old(self).tolerance(),
            final(self).results() == old(self).results() + (if old(self).tolerance().stops() {
                Seq::<HashItem>::empty()
            } else {
                recorded(reports@)
            }) + hashed(digests@),
            tick.0 == final(self).results().len(),
            tick.1 == old(self).total(),
            all_settled(old(self).results()) ==> all_settled(final(self).results()),
    {
        let ghost start = self.hashes@;
        let stops = matches!(self.tolerance, Tolerance::StopOnErrors);
        for report in it: reports.into_iter()
            invariant
                it.seq() == reports@,
                stops == old(self).tolerance.stops(),
                self.paths@ == old(self).paths@,
                self.job@ == old(self).job@,
                self.per_job == old(self).per_job,
                self.total == old(self).total,
                self.tolerance == old(self).tolerance,
                self.hashes@ == start + (if stops {
                    Seq::<HashItem>::empty()
                } else {
                    recorded(reports@.take(it.index()))
                }),
        {
            let ghost before = self.hashes@;
            let (path, err) = report;
            if !stops {
                self.hashes.push((path, Some(Err(err))));
            }
            proof {
                let k = it.index();
                assert(reports@.take(k + 1) =~= reports@.take(k).push(reports@[k]));
                assert(recorded(reports@.take(k + 1)) =~= recorded(reports@.take(k)).push(
                    (path, Some(Err::<Vec<u8>, E>(err))),
                ));
            }
        }
        assert(reports@.take(reports@.len() as int) =~= reports@);
        let ghost middle = self.hashes@;
        for digest in it: digests.into_iter()
            invariant
                it.seq() == digests@,
                self.paths@ == old(self).paths@,
                self.job@ == old(self).job@,
                self.per_job == old(self).per_job,
                self.total == old(self).total,
                self.tolerance == old(self).tolerance,
                self.hashes@ == middle + hashed(digests@.take(it.index())),
        {
            let (path, bytes) = digest;
            self.hashes.push((path, Some(Ok(bytes))));
            proof {
                let k = it.index();
                assert(digests@.take(k + 1) =~= digests@.take(k).push(digests@[k]));
                assert(hashed(digests@.take(k + 1)) =~= hashed(digests@.take(k)).push(
                    (path, Some(Ok::<Vec<u8>, E>(bytes))),
                ));
            }
        }
        assert(digests@.take(digests@.len() as int) =~= digests@);
        (self.hashes.len(), self.total)
    }

    /// Takes an error that a worker reports on its own. That the run was
    /// aborted ends the run. On any other error the tolerance decides whether
    /// it ends the run, bound to its path, or is recorded.
    pub fn failed(&mut self, path: String, err: E) -> (r: Result<(), E>)
        ensures
            final(self).queue() == old(self).queue(),
            final(self).job() == old(self).job(),
            final(self).per_job() == old(self).per_job(),
            final(self).total() == old(self).total(),
            final(self).tolerance() == old(self).tolerance(),
            err is Aborted ==> {
                &&& r == Err::<(), E>(E::Aborted)
                &&& final(self).results() == old(self).results()
            },
            !(err is Aborted) && old(self).tolerance().stops() ==> r == Err::<(), E>(
                E::Bound(path, Box::new(err)),
            ) && final(self).results() == old(self).results(),
            !(err is Aborted) && !old(self).tolerance().stops() ==> {
                &&& r is Ok
                &&& final(self).results() == old(self).results().push((path, Some(Err(err))))
            },
            all_settled(old(self).results()) ==> all_settled(final(self).results()),
    {
        check_err(path, err, &self.tolerance, &mut self.hashes)
    }

    /// Ends the run: arranges the results in the order of their paths and
    /// feeds the digests, in that order, to a fresh hasher `H`.
    ///
    /// Returns the summary digest and the arranged results. Where no result
    /// carries a digest the summary is empty, and the hasher is not asked to
    /// finish. The run fails only where the hasher does.
    pub fn summarize<H: Hasher>(self) -> (r: Result<(Vec<u8>, Vec<HashItem>), E>)
        ensures
            r matches Ok((digest, items)) ==> {
                &&& items@.to_multiset() == self.results().to_multiset()
                &&& items@.len() == self.results().len()
                &&& sorted_by_path(items@)
                &&& digest@ == summary_of::<H>(items@)
                &&& all_settled(self.results()) ==> all_settled(items@)
            },
            r matches Err(err) ==> err is Hasher,
            none_hashed(self.results()) ==> r is Ok,
    {
        let mut items = self.hashes;
        sort_by_path(&mut items);
        proof {
            vstd::seq_lib::to_multiset_len(items@);
            vstd::seq_lib::to_multiset_len(self.hashes@);
            if none_hashed(self.hashes@) {
                assert forall|i: int| 0 <= i < items@.len() implies !is_hashed(
                    #[trigger] items@[i],
                ) by {
                    let item = items@[i];
                    assert(items@.contains(item));
                    vstd::seq_lib::to_multiset_contains(items@, item);
                    vstd::seq_lib::to_multiset_contains(self.hashes@, item);
                    let k = choose|k: int| 0 <= k < self.hashes@.len() && self.hashes@[k] == item;
                    assert(!is_hashed(self.hashes@[k]));
                }
            }
            if all_settled(self.hashes@) {
                assert forall|i: int| 0 <= i < items@.len() implies is_hashed(#[trigger] items@[i])
                    || is_failed(items@[i]) by {
                    let item = items@[i];
                    assert(items@.contains(item));
                    vstd::seq_lib::to_multiset_contains(items@, item);
                    vstd::seq_lib::to_multiset_contains(self.hashes@, item);
                    let k = choose|k: int| 0 <= k < self.hashes@.len() && self.hashes@[k] == item;
                    assert(is_hashed(self.hashes@[k]) || is_failed(self.hashes@[k]));
                }
            }
        }
        let mut summary = H::new();
        let mut valid: usize = 0;
        let mut i: usize = 0;
        assert(items@.take(0) =~= Seq::<HashItem>::empty());
        while i < items.len()
            invariant
                i <= items@.len(),
                valid <= i,
                valid == hashed_count(items@.take(i as int)),
                summary.absorbed() == digest_input(items@.take(i as int)),
                none_hashed(self.hashes@) ==> none_hashed(items@),
            decreases items@.len() - i,
        {
            proof {
                assert(items@.take(i + 1).drop_last() =~= items@.take(i as int));
                assert(items@.take(i + 1).last() == items@[i as int]);
            }
            match &items[i].1 {
                Some(Ok(digest)) => {
                    assert(is_hashed(items@[i as int]));
                    match summary.absorb(digest.as_slice()) {
                        Ok(()) => {},
                        Err(detail) => {
                            return Err(E::hasher(detail));
                        },
                    }
                    valid += 1;
                },
                _ => {},
            }
            i += 1;
        }
        assert(items@.take(i as int) =~= items@);
        if valid == 0 {
            return Ok((Vec::new(), items));
        }
        proof {
            lemma_hashed_somewhere(items@);
        }
        match summary.finish() {
            Ok(()) => {},
            Err(detail) => {
                return Err(E::hasher(detail));
            },
        }
        match summary.hash() {
            Ok(digest) => Ok((slice_to_vec(digest), items)),
            Err(detail) => Err(E::hasher(detail)),
        }
    }
}

} // verus!
