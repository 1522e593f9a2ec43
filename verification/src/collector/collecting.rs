//! The coordinator of a collecting run.
//!
//! Folders are listed by a pool of workers. Every folder that a worker finds
//! comes back here; the coordinator binds the folder's context rules, judges
//! the folder by the rules above it and chooses the worker that lists it. The
//! files that workers report are judged by the context rules and kept. The
//! coordinator's driver reads the context files and talks to the workers.

use crate::collector::context::{first_offender, sources_compile, Context};
use crate::collector::pool::{all_down, all_idle, is_least_loaded, Pool};
use crate::collector::scope::{
    inheriting, lemma_kept_inherits, nothing_below, theorem_considering_inherits,
};
use crate::collector::{Tolerance, E};
use crate::entry::ContextFileAccepted;
use crate::paths::PathKind;
use vstd::prelude::*;

verus! {

/// What a worker tells the coordinator.
#[derive(Debug)]
pub enum Action {
    /// A folder was found and is to be listed by some worker.
    Delegate(String),
    /// A folder was listed: the files found in it, or the error that reading
    /// the folder caused, with the folder's path.
    Processed(Result<Vec<String>, (String, E)>),
    /// An item of a listing caused an error.
    Error(String, E),
}

/// What the coordinator decides on a folder.
#[derive(Clone, Copy, Debug, PartialEq, Eq, Structural)]
pub enum Dispatch {
    /// The context rules reject the folder: it is not listed.
    Dropped,
    /// The worker with this index lists the folder.
    Worker(usize),
}

/// The files of `files` that the context lets pass, in their order.
pub open spec fn permitted(context: &Context, files: Seq<String>) -> Seq<String> {
    files.filter(|file: String| context.permits(file@, PathKind::File))
}

/// The state of one collecting run.
#[derive(Debug)]
pub struct Collecting {
    context: Context,
    tolerance: Tolerance,
    collected: Vec<String>,
    invalid: Vec<(String, E)>,
    queue: usize,
}

impl Collecting {
    /// The context rules bound so far.
    pub closed spec fn context(&self) -> Context {
        self.context
    }

    /// The tolerance of the run.
    pub closed spec fn tolerance(&self) -> Tolerance {
        self.tolerance
    }

    /// The files collected so far.
    pub closed spec fn collected(&self) -> Seq<String> {
        self.collected@
    }

    /// The paths that caused errors so far, each with its error.
    pub closed spec fn invalid(&self) -> Seq<(String, E)> {
        self.invalid@
    }

    /// The number of folders handed to workers and not yet answered.
    pub closed spec fn in_flight(&self) -> nat {
        self.queue as nat
    }

    /// Starts a run for an entry with the given context files.
    pub fn new(files: &Vec<ContextFileAccepted>, tolerance: Tolerance) -> (r: Self)
        ensures
            r.context().files() == files@,
            forall|dir: Seq<char>| r.context().rules_at(dir) is None,
            inheriting(&r.context()),
            r.tolerance() == tolerance,
            r.collected() == Seq::<String>::empty(),
            r.invalid() == Seq::<(String, E)>::empty(),
            r.in_flight() == 0,
    {
        Collecting {
            context: Context::new(files),
            tolerance,
            collected: Vec::new(),
            invalid: Vec::new(),
            queue: 0,
        }
    }

    /// Whether the run goes on. `aborted` is what the breaker answered just
    /// now; the driver asks before it takes each message. A run that was
    /// aborted ends with `Aborted`, whatever the tolerance.
    pub fn proceed(&self, aborted: bool) -> (r: Result<(), E>)
        ensures
            aborted ==> r == Err::<(), E>(E::Aborted),
            !aborted ==> r is Ok,
    {
        if aborted {
            Err(E::Aborted)
        } else {
            Ok(())
        }
    }

    /// The context files to look for in every folder.
    pub fn names(&self) -> (r: &Vec<ContextFileAccepted>)
        ensures
            r@ == self.context().files(),
    {
        self.context.names()
    }

    /// Decides on a folder that was found.
    ///
    /// `sources` holds the context files that stand in the folder, with their
    /// content. Without an available worker the run fails, and so it does
    /// where as many folders are in flight as the machine can count. Else the
    /// rules of the folder are bound, which fails where a glob in them is not
    /// well formed. A folder that the rules above it reject is dropped; any
    /// other goes to the least loaded worker and counts as in flight.
    pub fn delegate(
        &mut self,
        dir: &str,
        sources: &Vec<(ContextFileAccepted, String)>,
        pool: &Pool,
    ) -> (r: Result<Dispatch, E>)
        ensures
            final(self).tolerance() == old(self).tolerance(),
            final(self).collected() == old(self).collected(),
            final(self).invalid() == old(self).invalid(),
            final(self).context().files() == old(self).context().files(),
            all_down(pool@) || old(self).in_flight() == usize::MAX ==> {
                &&& r matches Err(E::NoAvailableWorkers)
                &&& final(self).in_flight() == old(self).in_flight()
            },
            !all_down(pool@) && old(self).in_flight() < usize::MAX ==> (r is Ok
                <==> sources_compile(sources@)),
            r is Ok ==> final(self).context().follows(&old(self).context(), dir@, sources@),
            r is Err ==> final(self).context().keeps(&old(self).context()),
            inheriting(&old(self).context()) && nothing_below(&old(self).context(), dir@)
                ==> inheriting(&final(self).context()),
            !all_down(pool@) && old(self).in_flight() < usize::MAX && r is Err ==> {
                &&& r matches Err(E::PatternError(line, _)) && first_offender(sources@) == Some(
                    line@,
                )
                &&& final(self).in_flight() == old(self).in_flight()
            },
            r matches Ok(Dispatch::Dropped) ==> {
                &&& !final(self).context().permits(dir@, PathKind::Folder)
                &&& final(self).in_flight() == old(self).in_flight()
            },
            r matches Ok(Dispatch::Worker(i)) ==> {
                &&& final(self).context().permits(dir@, PathKind::Folder)
                &&& is_least_loaded(pool@, i as int)
                &&& final(self).in_flight() == old(self).in_flight() + 1
            },
    {
        let worker = match pool.get() {
            Some(worker) => worker,
            None => {
                return Err(E::NoAvailableWorkers);
            },
        };
        if self.queue == usize::MAX {
            return Err(E::NoAvailableWorkers);
        }
        let ghost before = self.context;
        match self.context.consider(dir, sources) {
            Ok(()) => {
                proof {
                    if inheriting(&before) && nothing_below(&before, dir@) {
                        theorem_considering_inherits(&before, &self.context, dir@, sources@);
                    }
                }
            },
            Err(err) => {
                proof {
                    if inheriting(&before) {
                        lemma_kept_inherits(&before, &self.context);
                    }
                }
                return Err(err);
            },
        }
        if !self.context.filtered(dir, PathKind::Folder) {
            return Ok(Dispatch::Dropped);
        }
        self.queue = self.queue + 1;
        Ok(Dispatch::Worker(worker))
    }

    /// Takes the files that a worker found in one folder: the folder is no
    /// longer in flight, and the files that the context rules let pass are
    /// collected, in their order. Returns the number of files collected so
    /// far, for the progress tick.
    pub fn processed(&mut self, files: Vec<String>) -> (count: usize)
        ensures
            final(self).tolerance() == old(self).tolerance(),
            final(self).context() == old(self).context(),
            final(self).invalid() == old(self).invalid(),
            final(self).in_flight() == if old(self).in_flight() > 0 {
                (old(self).in_flight() - 1) as nat
            } else {
                0
            },
            final(self).collected() == old(self).collected() + permitted(
                &old(self).context(),
                files@,
            ),
            count == final(self).collected().len(),
    {
        if self.queue > 0 {
            self.queue = self.queue - 1;
        }
        let ghost start = self.collected@;
        let ghost context = self.context;
        proof {
            reveal(Seq::filter);
            assert(files@.take(0) =~= Seq::<String>::empty());
            assert(permitted(&context, files@.take(0)) =~= Seq::<String>::empty());
        }
        for file in it: files.into_iter()
            invariant
                it.seq() == files@,
                context == old(self).context,
                self.context == old(self).context,
                self.tolerance == old(self).tolerance,
                self.invalid@ == old(self).invalid@,
                self.queue == if old(self).queue > 0 {
                    (old(self).queue - 1) as usize
                } else {
                    0usize
                },
                self.collected@ == start + permitted(&context, files@.take(it.index())),
        {
            proof {
                let k = it.index();
                reveal(Seq::filter);
                assert(files@.take(k + 1).drop_last() =~= files@.take(k));
                assert(files@.take(k + 1).last() == file);
            }
            if self.context.filtered(file.as_str(), PathKind::File) {
                self.collected.push(file);
            }
        }
        assert(files@.take(files@.len() as int) =~= files@);
        self.collected.len()
    }

    /// Takes an error that a worker reports. `listing` says whether the
    /// error ended the listing of a folder, which is then no longer in
    /// flight. Under `StopOnErrors` the run fails with the error bound to its
    /// path; else the path is recorded with the error.
    pub fn failed(&mut self, path: String, err: E, listing: bool) -> (r: Result<(), E>)
        ensures
            final(self).tolerance() == old(self).tolerance(),
            final(self).context() == old(self).context(),
            final(self).collected() == old(self).collected(),
            final(self).in_flight() == if listing && old(self).in_flight() > 0 {
                (old(self).in_flight() - 1) as nat
            } else {
                old(self).in_flight()
            },
            old(self).tolerance().stops() ==> r == Err::<(), E>(E::Bound(path, Box::new(err)))
                && final(self).invalid() == old(self).invalid(),
            !old(self).tolerance().stops() ==> {
                &&& r is Ok
                &&& final(self).invalid() == old(self).invalid().push((path, err))
            },
    {
        if listing && self.queue > 0 {
            self.queue = self.queue - 1;
        }
        match self.tolerance {
            Tolerance::StopOnErrors => Err(E::Bound(path, Box::new(err))),
            _ => {
                self.invalid.push((path, err));
                Ok(())
            },
        }
    }

    /// Whether the run is over: no message is waiting, no folder is in
    /// flight, and no worker has an unanswered task.
    pub fn is_done(&self, waiting: bool, pool: &Pool) -> (r: bool)
        ensures
            r == (!waiting && self.in_flight() == 0 && all_idle(pool@)),
    {
        !waiting && self.queue == 0 && pool.is_all_done()
    }

    /// Ends the run: the files collected, and the paths that caused errors.
    pub fn finish(self) -> (r: (Vec<String>, Vec<(String, E)>))
        ensures
            r.0@ == self.collected(),
            r.1@ == self.invalid(),
    {
        (self.collected, self.invalid)
    }
}

} // verus!
