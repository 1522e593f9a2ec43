//! How the bytes of a file are brought to the hasher.

use crate::walker::E;
use std::ops::Range;
use vstd::prelude::*;

verus! {

/// The way in which a file is read for hashing.
#[derive(Debug)]
pub enum ReadingStrategy {
    /// The file is read piece by piece into a buffer of fixed size, and each
    /// piece is handed to the hasher.
    Buffer,
    /// The whole file is read first and handed to the hasher at once.
    Complete,
    /// The file is mapped into memory and handed to the hasher at once.
    MemoryMapped,
    /// The strategy depends on the size of the file: each range of sizes has
    /// its own. The ranges follow one another from 0 without a gap, and none
    /// of their strategies is a scenario itself.
    Scenario(Vec<(Range<u64>, Box<ReadingStrategy>)>),
}

impl Default for ReadingStrategy {
    fn default() -> (r: Self)
        ensures
            r is Buffer,
    {
        ReadingStrategy::Buffer
    }
}

/// What is wrong with the ranges of a scenario.
#[derive(Clone, Copy, Debug, PartialEq, Eq, Structural)]
pub enum Fault {
    /// A range holds a scenario.
    Nested,
    /// A range does not start where the one before it ended, which is the
    /// size given here.
    Gap(u64),
}

/// Whether the strategy of `item` is a scenario.
pub open spec fn nests(item: (Range<u64>, Box<ReadingStrategy>)) -> bool {
    *item.1 is Scenario
}

/// Whether none of the strategies of the ranges is a scenario.
pub open spec fn flat(ranges: Seq<(Range<u64>, Box<ReadingStrategy>)>) -> bool {
    forall|i: int| 0 <= i < ranges.len() ==> !nests(#[trigger] ranges[i])
}

/// Whether the ranges follow one another without a gap, the first of them
/// starting at `from`.
pub open spec fn contiguous(ranges: Seq<(Range<u64>, Box<ReadingStrategy>)>, from: u64) -> bool
    decreases ranges.len(),
{
    ranges.len() == 0 || (ranges[0].0.start == from && contiguous(
        ranges.drop_first(),
        ranges[0].0.end,
    ))
}

/// The first thing wrong with the ranges, looked at in order; the first of
/// them is to start at `from`.
pub open spec fn fault(ranges: Seq<(Range<u64>, Box<ReadingStrategy>)>, from: u64) -> Option<Fault>
    decreases ranges.len(),
{
    if ranges.len() == 0 {
        None
    } else if nests(ranges[0]) {
        Some(Fault::Nested)
    } else if ranges[0].0.start != from {
        Some(Fault::Gap(from))
    } else {
        fault(ranges.drop_first(), ranges[0].0.end)
    }
}

/// The index of the first range that holds `size`, if there is one.
pub open spec fn range_of(ranges: Seq<(Range<u64>, Box<ReadingStrategy>)>, size: u64) -> Option<
    int,
> {
    if exists|i: int| 0 <= i < ranges.len() && holds(#[trigger] ranges[i], size) {
        Some(
            choose|i: int|
                0 <= i < ranges.len() && holds(#[trigger] ranges[i], size) && forall|j: int|
                    0 <= j < i ==> !holds(#[trigger] ranges[j], size),
        )
    } else {
        None
    }
}

/// Whether the range of `item` holds `size`.
pub open spec fn holds(item: (Range<u64>, Box<ReadingStrategy>), size: u64) -> bool {
    item.0.start <= size < item.0.end
}

/// The ranges are in order exactly where nothing is wrong with them.
pub proof fn lemma_fault_free(ranges: Seq<(Range<u64>, Box<ReadingStrategy>)>, from: u64)
    ensures
        fault(ranges, from) is None <==> flat(ranges) && contiguous(ranges, from),
    decreases ranges.len(),
{
    if ranges.len() > 0 {
        let rest = ranges.drop_first();
        lemma_fault_free(rest, ranges[0].0.end);
        if flat(ranges) {
            assert forall|i: int| 0 <= i < rest.len() implies !nests(#[trigger] rest[i]) by {
                assert(rest[i] == ranges[i + 1]);
            }
        }
        if flat(rest) && !(nests(ranges[0])) {
            assert forall|i: int| 0 <= i < ranges.len() implies !nests(#[trigger] ranges[i]) by {
                if i > 0 {
                    assert(ranges[i] == rest[i - 1]);
                }
            }
        }
    }
}

impl ReadingStrategy {
    /// Whether the strategy is well formed: every strategy but a scenario
    /// is; a scenario is where its ranges follow one another from 0 without
    /// a gap and hold no scenario.
    pub open spec fn wf(&self) -> bool {
        match self {
            ReadingStrategy::Scenario(ranges) => flat(ranges@) && contiguous(ranges@, 0),
            _ => true,
        }
    }

    /// The strategy by which a file of `size` bytes is read: the strategy
    /// itself, unless it is a scenario; else that of the first range that
    /// holds the size.
    pub open spec fn chosen(&self, size: u64) -> Result<ReadingStrategy, E> {
        match self {
            ReadingStrategy::Scenario(ranges) => match range_of(ranges@, size) {
                Some(i) => if nests(ranges@[i]) {
                    Err(E::NestedScenarioStrategy)
                } else {
                    Ok(*ranges@[i].1)
                },
                None => Err(E::NoRangeForScenarioStrategy(size)),
            },
            _ => Ok(*self),
        }
    }

    /// Checks the strategy. It fails exactly where the strategy is not well
    /// formed, with the first thing that is wrong with its ranges.
    #[verifier::loop_isolation(false)]
    pub fn check(&self) -> (r: Result<(), E>)
        ensures
            r is Ok <==> self.wf(),
            self matches ReadingStrategy::Scenario(ranges) ==> match fault(ranges@, 0) {
                None => r is Ok,
                Some(Fault::Nested) => r == Err::<(), E>(E::NestedScenarioStrategy),
                Some(Fault::Gap(from)) => r == Err::<(), E>(
                    E::InvalidRangesForScenarioStrategy(from),
                ),
            },
    {
        match self {
            ReadingStrategy::Scenario(ranges) => {
                let mut from: u64 = 0;
                let mut i: usize = 0;
                proof {
                    lemma_fault_free(ranges@, 0);
                    assert(ranges@.skip(0) =~= ranges@);
                }
                while i < ranges.len()
                    invariant
                        i <= ranges@.len(),
                        fault(ranges@, 0) == fault(ranges@.skip(i as int), from),
                    decreases ranges@.len() - i,
                {
                    proof {
                        assert(ranges@.skip(i as int)[0] == ranges@[i as int]);
                        assert(ranges@.skip(i as int).drop_first() =~= ranges@.skip(i + 1));
                    }
                    if matches!(*ranges[i].1, ReadingStrategy::Scenario(_)) {
                        return Err(E::NestedScenarioStrategy);
                    }
                    if ranges[i].0.start != from {
                        return Err(E::InvalidRangesForScenarioStrategy(from));
                    }
                    from = ranges[i].0.end;
                    i += 1;
                }
                Ok(())
            },
            _ => Ok(()),
        }
    }

    /// Whether the size of the file must be known to choose the strategy.
    pub fn needs_size(&self) -> (r: bool)
        ensures
            r == (self is Scenario),
    {
        matches!(self, ReadingStrategy::Scenario(_))
    }

    /// Computes [`ReadingStrategy::chosen`].
    #[verifier::loop_isolation(false)]
    pub fn select(&self, size: u64) -> (r: Result<&ReadingStrategy, E>)
        ensures
            r is Ok <==> self.chosen(size) is Ok,
            r matches Ok(strategy) ==> self.chosen(size) == Ok::<ReadingStrategy, E>(*strategy)
                && !(strategy is Scenario),
            r matches Err(err) ==> self.chosen(size) == Err::<ReadingStrategy, E>(err),
    {
        match self {
            ReadingStrategy::Scenario(ranges) => {
                let mut i: usize = 0;
                while i < ranges.len()
                    invariant
                        i <= ranges@.len(),
                        forall|j: int| 0 <= j < i ==> !holds(#[trigger] ranges@[j], size),
                    decreases ranges@.len() - i,
                {
                    if ranges[i].0.start <= size && size < ranges[i].0.end {
                        assert(holds(ranges@[i as int], size));
                        if matches!(*ranges[i].1, ReadingStrategy::Scenario(_)) {
                            return Err(E::NestedScenarioStrategy);
                        }
                        return Ok(&*ranges[i].1);
                    }
                    i += 1;
                }
                Err(E::NoRangeForScenarioStrategy(size))
            },
            _ => Ok(self),
        }
    }
}

} // verus!
