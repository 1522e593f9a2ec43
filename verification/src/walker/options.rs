//! The options of a walker.

use crate::collector::Tolerance;
use crate::entry::bundle::{holds_filter, Entry};
use crate::entry::filter::{Filter, FilterAccepted};
use crate::entry::globbing::glob_compiles;
use crate::paths::{is_absolute, path_is_absolute};
use crate::text::{join, joined, texts};
use crate::walker::strategy::{fault, Fault, ReadingStrategy};
use crate::walker::walking::Walker;
use crate::walker::E;
use vstd::prelude::*;
use vstd::string::{StrSliceExecFns, StringExecFns};
use vstd::utf8::encode_utf8;

verus! {

/// The least number of threads.
pub const MIN_THREADS_COUNT: usize = 1;

/// How many threads there may be for each core.
pub const MAX_THREADS_MLT_TO_CORES: usize = 2;

/// Whether `threads` threads are too many for a machine with `cores` cores:
/// more than two for each core.
pub open spec fn too_many(threads: usize, cores: usize) -> bool {
    threads > cores * MAX_THREADS_MLT_TO_CORES
}

/// Computes [`too_many`].
pub fn exceeds(threads: usize, cores: usize) -> (r: bool)
    ensures
        r == too_many(threads, cores),
{
    match cores.checked_mul(MAX_THREADS_MLT_TO_CORES) {
        Some(most) => threads > most,
        None => false,
    }
}

/// What a walker is to do: where, with what tolerance, and how.
#[derive(Debug)]
pub struct Options {
    /// How errors on single paths are treated, while collecting and while
    /// hashing.
    pub tolerance: Tolerance,
    /// The entries to walk.
    pub entries: Vec<Entry>,
    /// Filters that are meant for every entry.
    pub global: Entry,
    /// The capacity of the progress channel, if progress is to be reported.
    pub progress: Option<usize>,
    /// The number of threads. Without it there are as many as cores.
    pub threads: Option<usize>,
    /// How files are read.
    pub reading_strategy: ReadingStrategy,
}

impl Options {
    /// Whether `err` is the error with which `path` is refused as the root
    /// of an entry: it is relative, or else it leads to no folder.
    pub open spec fn refused_as_entry(path: Seq<char>, err: E) -> bool {
        if path_is_absolute(path) {
            err matches E::EntryError(crate::entry::E::OnlyFolderAsCwd(root)) && root@ == path
        } else {
            err matches E::EntryError(crate::entry::E::RelativePathAsEntry(root)) && root@ == path
        }
    }

    /// Whether `err` is the error with which a filter is refused whose
    /// text is no well-formed glob.
    pub open spec fn refused_as_filter(text: Seq<char>, err: E) -> bool {
        err matches E::EntryError(crate::entry::E::PatternError(glob, _)) && glob@ == text
    }

    /// Options that name no entry: errors are logged and tolerated, nothing
    /// is reported, there are as many threads as cores, and files are read
    /// through a buffer.
    pub fn new() -> (r: Self)
        ensures
            r.tolerance == Tolerance::LogErrors,
            r.entries@ == Seq::<Entry>::empty(),
            r.global.root() == Seq::<char>::empty(),
            r.global.include_filters() == Seq::<FilterAccepted>::empty(),
            r.global.exclude_filters() == Seq::<FilterAccepted>::empty(),
            r.global.pattern_filters() == Seq::<crate::entry::PatternFilterAccepted>::empty(),
            r.global.context_files() == Seq::<crate::entry::ContextFileAccepted>::empty(),
            r.progress is None,
            r.threads is None,
            r.reading_strategy is Buffer,
    {
        Options {
            tolerance: Tolerance::LogErrors,
            entries: Vec::new(),
            global: Entry::new(),
            progress: None,
            threads: None,
            reading_strategy: ReadingStrategy::Buffer,
        }
    }

    /// Options with one entry, the folder `path`, and everything else as in
    /// [`Options::new`]. `is_dir` says whether the path leads to a folder.
    pub fn from(path: &str, is_dir: bool) -> (r: Result<Self, E>)
        ensures
            r is Ok <==> path_is_absolute(path@) && is_dir,
            r matches Ok(options) ==> {
                &&& options.tolerance == Tolerance::LogErrors
                &&& options.entries@.len() == 1
                &&& options.entries@[0].root() == path@
                &&& options.progress is None
                &&& options.threads is None
                &&& options.reading_strategy is Buffer
            },
            r matches Err(err) ==> Self::refused_as_entry(path@, err),
    {
        Options::new().path(path, is_dir)
    }

    /// Sets the way in which files are read. A strategy that is not well
    /// formed is refused: see [`ReadingStrategy::check`].
    pub fn reading_strategy(self, reading_strategy: ReadingStrategy) -> (r: Result<Self, E>)
        ensures
            r is Ok <==> reading_strategy.wf(),
            r matches Ok(options) ==> {
                &&& options.reading_strategy == reading_strategy
                &&& options.tolerance == self.tolerance
                &&& options.entries == self.entries
                &&& options.global == self.global
                &&& options.progress == self.progress
                &&& options.threads == self.threads
            },
            reading_strategy matches ReadingStrategy::Scenario(ranges) ==> match fault(
                ranges@,
                0,
            ) {
                None => r is Ok,
                Some(Fault::Nested) => r matches Err(E::NestedScenarioStrategy),
                Some(Fault::Gap(from)) => r matches Err(E::InvalidRangesForScenarioStrategy(gap))
                    && gap == from,
            },
    {
        match reading_strategy.check() {
            Ok(()) => {},
            Err(err) => {
                return Err(err);
            },
        }
        let mut options = self;
        options.reading_strategy = reading_strategy;
        Ok(options)
    }

    /// Sets the number of threads. `cores` is the number of cores of the
    /// machine, if it is known. No threads at all are refused, and so are
    /// more than two for each core.
    pub fn threads(self, threads: usize, cores: Option<usize>) -> (r: Result<Self, E>)
        ensures
            threads < MIN_THREADS_COUNT ==> r matches Err(E::InvalidNumberOfThreads),
            threads >= MIN_THREADS_COUNT && (cores matches Some(n) && too_many(threads, n)) ==> r
                matches Err(E::NotOptimalNumberOfThreads),
            threads >= MIN_THREADS_COUNT && !(cores matches Some(n) && too_many(threads, n))
                ==> r is Ok,
            r matches Ok(options) ==> {
                &&& options.threads == Some(threads)
                &&& options.tolerance == self.tolerance
                &&& options.entries == self.entries
                &&& options.global == self.global
                &&& options.progress == self.progress
                &&& options.reading_strategy == self.reading_strategy
            },
    {
        if threads < MIN_THREADS_COUNT {
            return Err(E::InvalidNumberOfThreads);
        }
        match cores {
            Some(n) => {
                if exceeds(threads, n) {
                    return Err(E::NotOptimalNumberOfThreads);
                }
            },
            None => {},
        }
        let mut options = self;
        options.threads = Some(threads);
        Ok(options)
    }

    /// The number of workers for a run on a machine with `cores` cores: the
    /// number of threads that was set, or else the number of cores. The run
    /// cannot start where the number of cores is not known, or where more
    /// threads were set than two for each core.
    pub fn workers(&self, cores: Option<usize>) -> (r: Result<usize, E>)
        ensures
            r == (match cores {
                None => Err::<usize, E>(E::OptimalThreadsNumber),
                Some(n) => match self.threads {
                    Some(threads) => if too_many(threads, n) {
                        Err::<usize, E>(E::OptimalThreadsNumber)
                    } else {
                        Ok::<usize, E>(threads)
                    },
                    None => Ok::<usize, E>(n),
                },
            }),
    {
        match cores {
            None => Err(E::OptimalThreadsNumber),
            Some(n) => match self.threads {
                Some(threads) => {
                    if exceeds(threads, n) {
                        Err(E::OptimalThreadsNumber)
                    } else {
                        Ok(threads)
                    }
                },
                None => Ok(n),
            },
        }
    }

    /// Asks for progress reports over a channel of the given capacity.
    pub fn progress(self, capacity: usize) -> (r: Self)
        ensures
            r.progress == Some(capacity),
            r.tolerance == self.tolerance,
            r.entries == self.entries,
            r.global == self.global,
            r.threads == self.threads,
            r.reading_strategy == self.reading_strategy,
    {
        let mut options = self;
        options.progress = Some(capacity);
        options
    }

    /// Sets the tolerance.
    pub fn tolerance(self, tolerance: Tolerance) -> (r: Self)
        ensures
            r.tolerance == tolerance,
            r.progress == self.progress,
            r.entries == self.entries,
            r.global == self.global,
            r.threads == self.threads,
            r.reading_strategy == self.reading_strategy,
    {
        let mut options = self;
        options.tolerance = tolerance;
        options
    }

    /// Adds the folder `path` as an entry without filters. `is_dir` says
    /// whether the path leads to a folder.
    pub fn path(self, path: &str, is_dir: bool) -> (r: Result<Self, E>)
        ensures
            r is Ok <==> path_is_absolute(path@) && is_dir,
            r matches Ok(options) ==> {
                &&& options.entries@.len() == self.entries@.len() + 1
                &&& options.entries@.drop_last() == self.entries@
                &&& options.entries@.last().root() == path@
                &&& options.tolerance == self.tolerance
                &&& options.global == self.global
                &&& options.progress == self.progress
                &&& options.threads == self.threads
                &&& options.reading_strategy == self.reading_strategy
            },
            r matches Err(err) ==> Self::refused_as_entry(path@, err),
    {
        let entry = match Entry::from(path, is_dir) {
            Ok(entry) => entry,
            Err(err) => {
                return Err(E::from_entry(err));
            },
        };
        let mut options = self;
        let ghost before = options.entries@;
        options.entries.push(entry);
        assert(options.entries@.drop_last() =~= before);
        Ok(options)
    }

    /// Adds an entry. An entry whose root is not absolute is refused.
    pub fn entry(self, entry: Entry) -> (r: Result<Self, E>)
        ensures
            r is Ok <==> path_is_absolute(entry.root()),
            r matches Ok(options) ==> {
                &&& options.entries@ == self.entries@.push(entry)
                &&& options.tolerance == self.tolerance
                &&& options.global == self.global
                &&& options.progress == self.progress
                &&& options.threads == self.threads
                &&& options.reading_strategy == self.reading_strategy
            },
            r matches Err(err) ==> (err matches E::RelativePathAsEntry(root) && root@
                == entry.root()),
    {
        if !is_absolute(entry.path()) {
            return Err(E::RelativePathAsEntry(entry.path().to_owned()));
        }
        let mut options = self;
        options.entries.push(entry);
        Ok(options)
    }

    /// Adds an include filter to the filters that are meant for every entry.
    /// Fails exactly where the filter's text is no well-formed glob.
    pub fn including(self, filter: Filter) -> (r: Result<Self, E>)
        ensures
            r is Ok <==> glob_compiles(filter.text()),
            r matches Ok(options) ==> {
                &&& options.entries == self.entries
                &&& options.tolerance == self.tolerance
                &&& options.progress == self.progress
                &&& options.threads == self.threads
                &&& options.reading_strategy == self.reading_strategy
                &&& options.global.exclude_filters() == self.global.exclude_filters()
                &&& exists|accepted: FilterAccepted| #[trigger]
                    accepted.compiled_from(&filter) && options.global.include_filters()
                        == if holds_filter(self.global.include_filters(), &accepted)
                        || holds_filter(self.global.exclude_filters(), &accepted) {
                        self.global.include_filters()
                    } else {
                        self.global.include_filters().push(accepted)
                    }
            },
            r matches Err(err) ==> Self::refused_as_filter(filter.text(), err),
    {
        let Options { tolerance, entries, global, progress, threads, reading_strategy } = self;
        match global.including(filter) {
            Ok(global) => Ok(
                Options { tolerance, entries, global, progress, threads, reading_strategy },
            ),
            Err(err) => Err(E::from_entry(err)),
        }
    }

    /// Adds an exclude filter to the filters that are meant for every entry.
    /// Fails exactly where the filter's text is no well-formed glob.
    pub fn exclude(self, filter: Filter) -> (r: Result<Self, E>)
        ensures
            r is Ok <==> glob_compiles(filter.text()),
            r matches Ok(options) ==> {
                &&& options.entries == self.entries
                &&& options.tolerance == self.tolerance
                &&& options.progress == self.progress
                &&& options.threads == self.threads
                &&& options.reading_strategy == self.reading_strategy
                &&& options.global.include_filters() == self.global.include_filters()
                &&& exists|accepted: FilterAccepted| #[trigger]
                    accepted.compiled_from(&filter) && options.global.exclude_filters()
                        == if holds_filter(self.global.include_filters(), &accepted)
                        || holds_filter(self.global.exclude_filters(), &accepted) {
                        self.global.exclude_filters()
                    } else {
                        self.global.exclude_filters().push(accepted)
                    }
            },
            r matches Err(err) ==> Self::refused_as_filter(filter.text(), err),
    {
        let Options { tolerance, entries, global, progress, threads, reading_strategy } = self;
        match global.exclude(filter) {
            Ok(global) => Ok(
                Options { tolerance, entries, global, progress, threads, reading_strategy },
            ),
            Err(err) => Err(E::from_entry(err)),
        }
    }

    /// The texts of the entries.
    pub open spec fn entry_labels(entries: Seq<Entry>) -> Seq<Seq<char>> {
        entries.map_values(|entry: Entry| entry.text())
    }

    /// The options written out, as far as they say what is walked: the
    /// entries with `;` between them, a `:`, and the filters that are meant
    /// for every entry.
    pub open spec fn written(&self) -> Seq<char> {
        joined(Self::entry_labels(self.entries@), ";"@) + ":"@ + self.global.text()
    }

    /// The bytes of the options written out.
    pub open spec fn fingerprint(&self) -> Seq<u8> {
        encode_utf8(self.written())
    }

    /// Computes [`Options::fingerprint`]: what stands for these options where
    /// summary digests are kept.
    pub fn hash(&self) -> (r: Vec<u8>)
        ensures
            r@ == self.fingerprint(),
    {
        let mut labels: Vec<String> = Vec::new();
        let mut i: usize = 0;
        while i < self.entries.len()
            invariant
                i <= self.entries@.len(),
                texts(labels@) == Self::entry_labels(self.entries@.take(i as int)),
            decreases self.entries@.len() - i,
        {
            let label = self.entries[i].to_text();
            proof {
                assert(self.entries@.take(i + 1) =~= self.entries@.take(i as int).push(
                    self.entries@[i as int],
                ));
                assert(texts(labels@.push(label)) =~= texts(labels@).push(label@));
                assert(Self::entry_labels(self.entries@.take(i + 1)) =~= Self::entry_labels(
                    self.entries@.take(i as int),
                ).push(self.entries@[i as int].text()));
            }
            labels.push(label);
            i += 1;
        }
        assert(self.entries@.take(i as int) =~= self.entries@);
        let mut text = join(&labels, ";");
        text.append(":");
        text.append(self.global.to_text().as_str());
        text.as_str().as_bytes_vec()
    }

    /// A walker with these options.
    pub fn walker(self) -> (r: Result<Walker, E>)
        ensures
            r matches Ok(walker) && {
                &&& walker.options() == Some(self)
                &&& walker.items() == Seq::<crate::walker::HashItem>::empty()
                &&& walker.summary() is None
                &&& walker.reporting() == self.progress is Some
                &&& walker.receiver_waiting() == self.progress is Some
            },
    {
        Ok(Walker::new(self))
    }
}

impl Default for Options {
    /// The options of [`Options::new`].
    fn default() -> (r: Self)
        ensures
            r.tolerance == Tolerance::LogErrors,
            r.entries@ == Seq::<Entry>::empty(),
            r.progress is None,
            r.threads is None,
            r.reading_strategy is Buffer,
    {
        Options::new()
    }
}

} // verus!
