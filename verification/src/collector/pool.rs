//! Choosing among the workers of a pool.

use vstd::prelude::*;

verus! {

/// What is known of one worker when a decision is taken: whether it still
/// takes tasks, and how many tasks it has not answered yet.
#[derive(Clone, Copy, Debug, PartialEq, Eq, Structural)]
pub struct WorkerLoad {
    /// Whether the worker still takes tasks.
    pub available: bool,
    /// The number of tasks given to the worker and not answered yet.
    pub count: usize,
}

/// Whether worker `i` is the one to take the next task: it is available, no
/// available worker has fewer tasks, and of those with as few it is the first.
pub open spec fn is_least_loaded(loads: Seq<WorkerLoad>, i: int) -> bool {
    &&& 0 <= i < loads.len()
    &&& loads[i].available
    &&& forall|j: int|
        0 <= j < loads.len() && (#[trigger] loads[j]).available ==> loads[i].count
            < loads[j].count || (loads[i].count == loads[j].count && i <= j)
}

/// Whether no worker has a task that it has not answered.
pub open spec fn all_idle(loads: Seq<WorkerLoad>) -> bool {
    forall|j: int| 0 <= j < loads.len() ==> (#[trigger] loads[j]).count == 0
}

/// Whether no worker takes tasks any more.
pub open spec fn all_down(loads: Seq<WorkerLoad>) -> bool {
    forall|j: int| 0 <= j < loads.len() ==> !(#[trigger] loads[j]).available
}

/// The workers of a pool, as far as decisions need to know them.
#[derive(Debug)]
pub struct Pool {
    workers: Vec<WorkerLoad>,
}

impl View for Pool {
    type V = Seq<WorkerLoad>;

    closed spec fn view(&self) -> Seq<WorkerLoad> {
        self.workers@
    }
}

impl Pool {
    /// A pool as its workers report themselves.
    pub fn new(workers: Vec<WorkerLoad>) -> (r: Self)
        ensures
            r@ == workers@,
    {
        Pool { workers }
    }

    /// The available worker with the fewest unanswered tasks; of several such
    /// workers the first. `None` exactly where no worker is available.
    pub fn get(&self) -> (r: Option<usize>)
        ensures
            r is None <==> all_down(self@),
            r matches Some(i) ==> is_least_loaded(self@, i as int),
    {
        let mut best: Option<usize> = None;
        let mut i: usize = 0;
        while i < self.workers.len()
            invariant
                i <= self.workers@.len(),
                best is None ==> forall|j: int|
                    0 <= j < i ==> !(#[trigger] self.workers@[j]).available,
                best matches Some(b) ==> b < i && self.workers@[b as int].available && forall|
                    j: int,
                |
                    0 <= j < i && (#[trigger] self.workers@[j]).available ==> self.workers@[b as int].count
                        < self.workers@[j].count || (self.workers@[b as int].count
                        == self.workers@[j].count && b <= j),
            decreases self.workers@.len() - i,
        {
            if self.workers[i].available {
                match best {
                    None => {
                        best = Some(i);
                    },
                    Some(b) => {
                        if self.workers[i].count < self.workers[b].count {
                            best = Some(i);
                        }
                    },
                }
            }
            i += 1;
        }
        best
    }

    /// Whether no worker has a task that it has not answered.
    pub fn is_all_done(&self) -> (r: bool)
        ensures
            r == all_idle(self@),
    {
        let mut i: usize = 0;
        while i < self.workers.len()
            invariant
                i <= self.workers@.len(),
                forall|j: int| 0 <= j < i ==> (#[trigger] self.workers@[j]).count == 0,
            decreases self.workers@.len() - i,
        {
            if self.workers[i].count != 0 {
                return false;
            }
            i += 1;
        }
        true
    }

    /// Whether no worker takes tasks any more.
    pub fn is_all_down(&self) -> (r: bool)
        ensures
            r == all_down(self@),
    {
        let mut i: usize = 0;
        while i < self.workers.len()
            invariant
                i <= self.workers@.len(),
                forall|j: int| 0 <= j < i ==> !(#[trigger] self.workers@[j]).available,
            decreases self.workers@.len() - i,
        {
            if self.workers[i].available {
                return false;
            }
            i += 1;
        }
        true
    }
}

} // verus!
