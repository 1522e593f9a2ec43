use fshasher::collector::{self, Action as Message, Collecting, Dispatch, Outcome, Pool, WorkerLoad};
use fshasher::hasher::blake::Blake;
use fshasher::hasher::sha512::Sha512;
use fshasher::reader::md::Md;
use fshasher::walker::hashing::{check_err, paths_per_job};
use fshasher::walker::tracking::{alias, get_storage_name, to_hex, PreviousHash};
use fshasher::walker::{
    hash_file, Action, Assignment, Delivery, HashItem, Hashing, Progress, Tick, Worker,
};
use fshasher::{
    Breaker, Entry, Hasher, Options, PathKind, Reader, ReadingStrategy, Tolerance, Walker, E,
};
use std::collections::{BTreeMap, VecDeque};

/// A tree of folders and files that lives in memory.
struct UseCase {
    root: String,
    folders: BTreeMap<String, Vec<String>>,
    contents: BTreeMap<String, (Vec<u8>, u128)>,
    files: Vec<String>,
    clock: u128,
}

impl UseCase {
    fn empty() -> Self {
        let root = "/tmp/usecase".to_string();
        let mut folders = BTreeMap::new();
        folders.insert(root.clone(), Vec::new());
        UseCase { root, folders, contents: BTreeMap::new(), files: Vec::new(), clock: 1 }
    }

    fn fill(&mut self, parent: &str, folders: usize, files: usize, exts: &[&str]) -> Vec<String> {
        let mut created = Vec::new();
        for f in 0..folders {
            let folder = format!("{parent}/folder_{f}");
            self.folders.get_mut(parent).unwrap().push(folder.clone());
            self.folders.insert(folder.clone(), Vec::new());
            for i in 0..files {
                let path = if exts.is_empty() {
                    format!("{folder}/file_{i}")
                } else {
                    format!("{folder}/file_{i}.{}", exts[i % exts.len()])
                };
                self.clock += 1;
                let content = format!("content of file {}", self.clock).into_bytes();
                self.folders.get_mut(&folder).unwrap().push(path.clone());
                self.contents.insert(path.clone(), (content, self.clock));
                self.files.push(path);
            }
            created.push(folder);
        }
        created
    }

    fn unnamed(folders: usize, files: usize, deep: usize, exts: &[&str]) -> Self {
        let mut usecase = UseCase::empty();
        let root = usecase.root.clone();
        let mut level = usecase.fill(&root, folders, files, exts);
        for _ in 0..deep {
            let mut next = Vec::new();
            for folder in level.iter() {
                next.append(&mut usecase.fill(folder, folders, files, exts));
            }
            level = next;
        }
        usecase
    }

    fn kind(&self, path: &str) -> Option<PathKind> {
        if self.folders.contains_key(path) {
            Some(PathKind::Folder)
        } else if self.contents.contains_key(path) {
            Some(PathKind::File)
        } else {
            None
        }
    }

    fn probe(&self, path: &str) -> collector::Found {
        match self.kind(path) {
            Some(kind) => collector::Found { path: path.to_string(), exists: true, kind, link: None },
            None => collector::Found {
                path: path.to_string(),
                exists: false,
                kind: PathKind::Other,
                link: None,
            },
        }
    }

    fn change(&mut self, index: usize) {
        let path = self.files[index].clone();
        self.clock += 1;
        let clock = self.clock;
        let file = self.contents.get_mut(&path).unwrap();
        file.0.extend_from_slice(b"sixteen bytes...");
        file.1 = clock;
    }

    fn remove(&mut self, count: usize) {
        for path in self.files.iter().take(count) {
            self.contents.remove(path);
        }
    }

    fn clean(&mut self) {
        self.contents.clear();
        self.folders.clear();
    }
}

/// A reader over bytes in memory. It hands out at most `step` bytes at once.
struct Buffering {
    content: Vec<u8>,
    at: usize,
    step: usize,
}

impl Reader for Buffering {
    fn read(&mut self, buffer: &mut [u8]) -> Result<usize, std::io::Error> {
        let n = buffer.len().min(self.content.len() - self.at).min(self.step);
        buffer[..n].copy_from_slice(&self.content[self.at..self.at + n]);
        self.at += n;
        Ok(n)
    }

    fn mmap(&mut self) -> Result<&[u8], String> {
        Err("Buffering reader doesn't support mapping file into memory".to_string())
    }
}

/// A reader over bytes in memory that can hand them out all at once.
struct Mapping {
    content: Vec<u8>,
    at: usize,
}

impl Reader for Mapping {
    fn read(&mut self, buffer: &mut [u8]) -> Result<usize, std::io::Error> {
        let n = buffer.len().min(self.content.len() - self.at);
        buffer[..n].copy_from_slice(&self.content[self.at..self.at + n]);
        self.at += n;
        Ok(n)
    }

    fn mmap(&mut self) -> Result<&[u8], String> {
        Ok(&self.content)
    }
}

/// A hasher that does not hash: its digest is what it has absorbed.
struct Plain {
    bytes: Vec<u8>,
    done: bool,
}

impl Hasher for Plain {
    fn new() -> Self {
        Plain { bytes: Vec::new(), done: false }
    }

    fn absorb(&mut self, data: &[u8]) -> Result<(), String> {
        self.bytes.extend_from_slice(data);
        Ok(())
    }

    fn finish(&mut self) -> Result<(), String> {
        self.done = true;
        Ok(())
    }

    fn hash(&self) -> Result<&[u8], String> {
        if self.done {
            Ok(&self.bytes)
        } else {
            Err("Hashing not finished".to_string())
        }
    }
}

/// A hasher that fails at whatever it is asked to do.
struct Broken;

impl Hasher for Broken {
    fn new() -> Self {
        Broken
    }

    fn absorb(&mut self, _data: &[u8]) -> Result<(), String> {
        Err("cannot absorb".to_string())
    }

    fn finish(&mut self) -> Result<(), String> {
        Err("cannot finish".to_string())
    }

    fn hash(&self) -> Result<&[u8], String> {
        Err("cannot hash".to_string())
    }
}

fn buffering(usecase: &UseCase, path: &str) -> Buffering {
    let content = usecase.contents.get(path).map(|f| f.0.clone()).unwrap_or_default();
    Buffering { content, at: 0, step: 7 }
}

fn mapping(usecase: &UseCase, path: &str) -> Mapping {
    let content = usecase.contents.get(path).map(|f| f.0.clone()).unwrap_or_default();
    Mapping { content, at: 0 }
}

fn md(usecase: &UseCase, path: &str) -> Md {
    match usecase.contents.get(path) {
        Some((content, modified)) => Md::new(*modified, content.len() as u64),
        None => Md::new(0, 0),
    }
}

const CORES: Option<usize> = Some(8);

fn sources(
    usecase: &UseCase,
    state: &Collecting,
    dir: &str,
) -> Vec<(fshasher::entry::ContextFileAccepted, String)> {
    let mut found = Vec::new();
    for file in state.names().iter() {
        if let Some((bytes, _)) = usecase.contents.get(&file.filepath(dir)) {
            found.push((file.clone(), String::from_utf8(bytes.clone()).unwrap()));
        }
    }
    found
}

fn collect_entry(
    usecase: &UseCase,
    entry: &Entry,
    breaker: &Breaker,
    tolerance: Tolerance,
    workers: usize,
) -> Result<(Vec<String>, Vec<(String, collector::E)>), collector::E> {
    let mut state = Collecting::new(entry.contexts(), tolerance);
    let pool = Pool::new(vec![WorkerLoad { available: true, count: 0 }; workers]);
    let mut queue: VecDeque<Message> = VecDeque::new();
    queue.push_back(Message::Delegate(entry.path().to_string()));
    while let Some(action) = queue.pop_front() {
        state.proceed(breaker.is_aborted())?;
        match action {
            Message::Delegate(dir) => match state.delegate(&dir, &sources(usecase, &state, &dir), &pool)? {
                Dispatch::Dropped => {}
                Dispatch::Worker(_) => {
                    let mut files = Vec::new();
                    for child in usecase.folders.get(&dir).unwrap().iter() {
                        match collector::Worker::run(entry, usecase.probe(child)) {
                            Outcome::Skip => {}
                            Outcome::Collect(path) => files.push(path),
                            Outcome::Delegate(path) => queue.push_back(Message::Delegate(path)),
                            Outcome::Report(path, err) => queue.push_back(Message::Error(path, err)),
                        }
                    }
                    queue.push_back(Message::Processed(Ok(files)));
                }
            },
            Message::Processed(Ok(files)) => {
                state.processed(files);
            }
            Message::Processed(Err((path, err))) => state.failed(path, err, true)?,
            Message::Error(path, err) => state.failed(path, err, false)?,
        }
    }
    Ok(state.finish())
}

/// Collects as the walker's driver does: entry after entry, and what an
/// entry has brought stays with the walker even where a later entry fails.
fn collect(walker: &mut Walker, usecase: &UseCase) -> Result<(), E> {
    walker.collect()?;
    let breaker = walker.breaker();
    let entries = walker.settings().unwrap().entries.len();
    for at in 0..entries {
        let found = {
            let options = walker.settings().unwrap();
            let workers = options.workers(CORES)?;
            collect_entry(usecase, &options.entries[at], &breaker, options.tolerance, workers)
        };
        let (collected, invalid) = found.map_err(E::from_collector)?;
        walker.collected(collected, invalid);
    }
    Ok(())
}

fn run_job<H: Hasher, R: Reader>(
    usecase: &UseCase,
    job: Vec<String>,
    worker: u16,
    strategy: &ReadingStrategy,
    tolerance: &Tolerance,
    breaker: &Breaker,
    make: &dyn Fn(&UseCase, &str) -> R,
) -> Action {
    let mut collected = Vec::new();
    let mut reports = Vec::new();
    for path in job {
        let exists = usecase.contents.contains_key(&path);
        let size = Ok(usecase.contents.get(&path).map(|f| f.0.len() as u64).unwrap_or(0));
        let mut reader = make(usecase, &path);
        let outcome = hash_file::<H, R>(&path, exists, size, &mut reader, strategy, breaker);
        if let Some(stop) = Worker::run(path, outcome, tolerance, &mut collected, &mut reports) {
            return stop;
        }
    }
    Action::Processed(worker, collected, reports)
}

fn next_job(run: &mut Hashing, usecase: &UseCase) -> Result<Vec<String>, E> {
    while let Some(path) = run.candidate() {
        let exists = usecase.contents.contains_key(&path);
        run.resolve(path, exists)?;
    }
    Ok(run.take_job())
}

/// Hashes as the walker's driver does, the workers taking turns.
fn hash<H: Hasher, R: Reader>(
    walker: &mut Walker,
    usecase: &UseCase,
    make: &dyn Fn(&UseCase, &str) -> R,
) -> Result<Vec<u8>, E> {
    hash_with::<H, R>(walker, usecase, make, &|| {})
}

/// The same; whoever listens to the progress is asked in once a tick is out.
fn hash_with<H: Hasher, R: Reader>(
    walker: &mut Walker,
    usecase: &UseCase,
    make: &dyn Fn(&UseCase, &str) -> R,
    listener: &dyn Fn(),
) -> Result<Vec<u8>, E> {
    let breaker = walker.breaker();
    let progress = walker.reporter();
    let mut run = match walker.hash()? {
        Some(run) => run,
        None => return Ok(Vec::new()),
    };
    let (workers, tolerance) = {
        let options = walker.settings().unwrap();
        (options.workers(CORES)?, options.tolerance)
    };
    let available = vec![true; workers];
    let mut queue: VecDeque<Action> = VecDeque::new();
    {
        let options = walker.settings().unwrap();
        for worker in 0..workers {
            let job = next_job(&mut run, usecase)?;
            match Hashing::first_round(worker, &job) {
                Assignment::Worker(to) => queue.push_back(run_job::<H, R>(
                    usecase,
                    job,
                    to as u16,
                    &options.reading_strategy,
                    &tolerance,
                    &breaker,
                    make,
                )),
                _ => break,
            }
        }
        while let Some(action) = queue.pop_front() {
            run.proceed(breaker.is_aborted())?;
            match action {
                Action::Processed(worker, digests, reports) => {
                    let (done, total) = run.processed(digests, reports);
                    if let Some(progress) = progress.as_ref() {
                        progress.notify(fshasher::JobType::Hashing, done, total);
                        listener();
                    }
                    if run.has_paths() {
                        let job = next_job(&mut run, usecase)?;
                        if let Assignment::Worker(to) = Hashing::next_round(worker, &job, &available)
                        {
                            queue.push_back(run_job::<H, R>(
                                usecase,
                                job,
                                to as u16,
                                &options.reading_strategy,
                                &tolerance,
                                &breaker,
                                make,
                            ));
                        }
                    }
                }
                Action::WorkerShutdownNotification => {}
                Action::Error(path, err) => run.failed(path, err)?,
            }
        }
    }
    let (digest, items) = run.summarize::<H>()?;
    walker.hashed(digest, items);
    Ok(walker.digest().to_vec())
}

fn walker_for(usecase: &UseCase, strategy: Option<ReadingStrategy>) -> Walker {
    let mut options = Options::new()
        .entry(Entry::from(&usecase.root, true).unwrap())
        .unwrap()
        .tolerance(Tolerance::LogErrors);
    if let Some(strategy) = strategy {
        options = options.reading_strategy(strategy).unwrap();
    }
    options.walker().unwrap()
}

fn items(walker: &Walker) -> Vec<&HashItem> {
    let mut iter = walker.iter();
    let mut all = Vec::new();
    while let Some(item) = iter.next() {
        all.push(item);
    }
    all
}

fn count_ok(walker: &Walker) -> usize {
    items(walker).iter().filter(|item| matches!(item.1, Some(Ok(_)))).count()
}

fn count_err(walker: &Walker) -> usize {
    items(walker).iter().filter(|item| matches!(item.1, Some(Err(_)))).count()
}

fn compare_same_dest<H: Hasher, R: Reader>(
    usecase: &UseCase,
    strategy: &dyn Fn() -> Option<ReadingStrategy>,
    make: &dyn Fn(&UseCase, &str) -> R,
) {
    let mut hashes: Vec<Vec<u8>> = Vec::new();
    for _ in 0..2 {
        let mut walker = walker_for(usecase, strategy());
        collect(&mut walker, usecase).unwrap();
        assert_eq!(walker.count(), usecase.files.len());
        hashes.push(hash::<H, R>(&mut walker, usecase, make).unwrap());
        assert_eq!(count_ok(&walker), usecase.files.len());
    }
    assert_eq!(hashes.len(), 2);
    assert_eq!(hashes[0], hashes[1]);
    assert!(!hashes[0].is_empty());
}

fn check_for_changes<H: Hasher, R: Reader>(
    usecase: &mut UseCase,
    strategy: &dyn Fn() -> Option<ReadingStrategy>,
    make: &dyn Fn(&UseCase, &str) -> R,
) {
    let mut walker_a = walker_for(usecase, strategy());
    collect(&mut walker_a, usecase).unwrap();
    assert_eq!(walker_a.count(), usecase.files.len());
    let hash_a = hash::<H, R>(&mut walker_a, usecase, make).unwrap();
    usecase.change(usecase.files.len() / 2);
    let mut walker_b = walker_for(usecase, strategy());
    collect(&mut walker_b, usecase).unwrap();
    assert_eq!(walker_b.count(), usecase.files.len());
    let hash_b = hash::<H, R>(&mut walker_b, usecase, make).unwrap();
    assert_eq!(walker_a.count(), usecase.files.len());
    assert_eq!(walker_b.count(), usecase.files.len());
    assert_ne!(hash_a, hash_b);
}

fn none() -> Option<ReadingStrategy> {
    None
}

fn complete_strategy() -> Option<ReadingStrategy> {
    Some(ReadingStrategy::Complete)
}

fn mapped_strategy() -> Option<ReadingStrategy> {
    Some(ReadingStrategy::MemoryMapped)
}

#[test]
fn correction() {
    let usecase = UseCase::unnamed(5, 10, 3, &["aaa", "bbb", "ccc"]);
    compare_same_dest::<Blake, Buffering>(&usecase, &none, &buffering);
}

#[test]
fn stress() {
    let usecase = UseCase::unnamed(3, 4, 2, &["aaa", "bbb", "ccc"]);
    for _ in 0..10 {
        compare_same_dest::<Blake, Buffering>(&usecase, &none, &buffering);
    }
}

#[test]
fn changes() {
    let mut usecase = UseCase::unnamed(5, 10, 3, &["aaa", "bbb", "ccc"]);
    check_for_changes::<Blake, Buffering>(&mut usecase, &none, &buffering);
}

#[test]
fn changes_stress() {
    let mut usecase = UseCase::unnamed(3, 4, 2, &["aaa", "bbb", "ccc"]);
    for _ in 0..10 {
        check_for_changes::<Blake, Buffering>(&mut usecase, &none, &buffering);
    }
}

#[test]
fn mod_correction_buffering() {
    let usecase = UseCase::unnamed(2, 2, 2, &[]);
    compare_same_dest::<Blake, Buffering>(&usecase, &none, &buffering);
}

#[test]
fn mod_changes_buffering() {
    let mut usecase = UseCase::unnamed(2, 2, 2, &[]);
    check_for_changes::<Blake, Buffering>(&mut usecase, &none, &buffering);
}

#[test]
fn mod_correction_complete() {
    let usecase = UseCase::unnamed(2, 2, 2, &[]);
    compare_same_dest::<Blake, Buffering>(&usecase, &complete_strategy, &buffering);
}

#[test]
fn mod_changes_complete() {
    let mut usecase = UseCase::unnamed(2, 2, 2, &[]);
    check_for_changes::<Blake, Buffering>(&mut usecase, &complete_strategy, &buffering);
}

#[test]
fn mod_correction_mapped() {
    let usecase = UseCase::unnamed(2, 2, 2, &[]);
    compare_same_dest::<Blake, Mapping>(&usecase, &mapped_strategy, &mapping);
}

#[test]
fn mod_changes_mapped() {
    let mut usecase = UseCase::unnamed(2, 2, 2, &[]);
    check_for_changes::<Blake, Mapping>(&mut usecase, &mapped_strategy, &mapping);
}

#[test]
fn sha512_correction_buffering() {
    let usecase = UseCase::unnamed(2, 2, 2, &[]);
    compare_same_dest::<Sha512, Buffering>(&usecase, &none, &buffering);
}

#[test]
fn sha512_changes_buffering() {
    let mut usecase = UseCase::unnamed(2, 2, 2, &[]);
    check_for_changes::<Sha512, Buffering>(&mut usecase, &none, &buffering);
}

#[test]
fn sha512_correction_complete() {
    let usecase = UseCase::unnamed(2, 2, 2, &[]);
    compare_same_dest::<Sha512, Buffering>(&usecase, &complete_strategy, &buffering);
}

#[test]
fn sha512_changes_complete() {
    let mut usecase = UseCase::unnamed(2, 2, 2, &[]);
    check_for_changes::<Sha512, Buffering>(&mut usecase, &complete_strategy, &buffering);
}

#[test]
fn sha512_correction_mapped() {
    let usecase = UseCase::unnamed(2, 2, 2, &[]);
    compare_same_dest::<Sha512, Mapping>(&usecase, &mapped_strategy, &mapping);
}

#[test]
fn sha512_changes_mapped() {
    let mut usecase = UseCase::unnamed(2, 2, 2, &[]);
    check_for_changes::<Sha512, Mapping>(&mut usecase, &mapped_strategy, &mapping);
}

#[test]
fn buffering_correction() {
    let usecase = UseCase::unnamed(2, 2, 2, &[]);
    compare_same_dest::<Blake, Buffering>(&usecase, &none, &buffering);
}

#[test]
fn buffering_changes() {
    let mut usecase = UseCase::unnamed(2, 2, 2, &[]);
    check_for_changes::<Blake, Buffering>(&mut usecase, &none, &buffering);
}

#[test]
fn mapping_correction() {
    let usecase = UseCase::unnamed(2, 2, 2, &[]);
    compare_same_dest::<Blake, Mapping>(&usecase, &mapped_strategy, &mapping);
}

#[test]
fn mapping_changes() {
    let mut usecase = UseCase::unnamed(2, 2, 2, &[]);
    check_for_changes::<Blake, Mapping>(&mut usecase, &mapped_strategy, &mapping);
}

#[test]
fn correction_chunked() {
    let usecase = UseCase::unnamed(2, 2, 2, &[]);
    compare_same_dest::<Blake, Md>(&usecase, &none, &md);
}

#[test]
fn changes_chunked() {
    let mut usecase = UseCase::unnamed(2, 2, 2, &[]);
    check_for_changes::<Blake, Md>(&mut usecase, &none, &md);
}

#[test]
fn md_correction_complete() {
    let usecase = UseCase::unnamed(2, 2, 2, &[]);
    compare_same_dest::<Blake, Md>(&usecase, &complete_strategy, &md);
}

#[test]
fn md_changes_complete() {
    let mut usecase = UseCase::unnamed(2, 2, 2, &[]);
    check_for_changes::<Blake, Md>(&mut usecase, &complete_strategy, &md);
}

#[test]
fn empty_dest_folder() {
    let usecase = UseCase::empty();
    let mut walker = walker_for(&usecase, None);
    collect(&mut walker, &usecase).unwrap();
    let hash = hash::<Blake, Buffering>(&mut walker, &usecase, &buffering).unwrap();
    assert!(hash.is_empty());
    assert_eq!(walker.count(), 0);
}

#[test]
fn empty_folders() {
    let usecase = UseCase::unnamed(5, 0, 3, &[]);
    let mut walker = walker_for(&usecase, None);
    collect(&mut walker, &usecase).unwrap();
    let hash = hash::<Blake, Buffering>(&mut walker, &usecase, &buffering).unwrap();
    assert!(hash.is_empty());
}

#[test]
fn removed_dest() {
    let mut usecase = UseCase::unnamed(5, 2, 3, &[]);
    let mut walker = walker_for(&usecase, None);
    collect(&mut walker, &usecase).unwrap();
    assert_eq!(walker.count(), usecase.files.len());
    usecase.clean();
    assert!(hash::<Blake, Buffering>(&mut walker, &usecase, &buffering).is_ok());
    assert_eq!(count_err(&walker), usecase.files.len());
    assert!(walker.digest().is_empty());
}

#[test]
fn removed_dest_no_tolerance() {
    let mut usecase = UseCase::unnamed(5, 2, 3, &[]);
    let mut walker = Options::new()
        .entry(Entry::from(&usecase.root, true).unwrap())
        .unwrap()
        .tolerance(Tolerance::StopOnErrors)
        .walker()
        .unwrap();
    collect(&mut walker, &usecase).unwrap();
    assert_eq!(walker.count(), usecase.files.len());
    usecase.clean();
    match hash::<Blake, Buffering>(&mut walker, &usecase, &buffering) {
        Err(E::Bound(path, inner)) => {
            assert_eq!(path, usecase.files[0]);
            assert!(matches!(*inner, E::FileDoesNotExists(gone) if gone == usecase.files[0]));
        }
        _ => panic!("hashing must stop on the first file that is gone"),
    }
}

#[test]
fn changed_dest_after_collecting_ignore_error() {
    let mut usecase = UseCase::unnamed(5, 10, 3, &[]);
    let mut walker = walker_for(&usecase, None);
    collect(&mut walker, &usecase).unwrap();
    let removed_count = 100;
    usecase.remove(removed_count);
    assert!(hash::<Blake, Buffering>(&mut walker, &usecase, &buffering).is_ok());
    assert_eq!(count_err(&walker), removed_count);
    assert_eq!(count_ok(&walker), usecase.files.len() - removed_count);
}

#[test]
fn changed_dest_after_collecting_with_error() {
    let mut usecase = UseCase::unnamed(5, 10, 3, &[]);
    let mut walker = Options::from(&usecase.root, true)
        .unwrap()
        .tolerance(Tolerance::StopOnErrors)
        .walker()
        .unwrap();
    collect(&mut walker, &usecase).unwrap();
    usecase.remove(100);
    assert!(hash::<Blake, Buffering>(&mut walker, &usecase, &buffering).is_err());
}

#[test]
fn iterator() {
    let usecase = UseCase::unnamed(2, 4, 2, &[]);
    let mut walker = Options::new()
        .entry(Entry::from(&usecase.root, true).unwrap())
        .unwrap()
        .walker()
        .unwrap();
    collect(&mut walker, &usecase).unwrap();
    hash::<Blake, Buffering>(&mut walker, &usecase, &buffering).unwrap();
    assert_eq!(walker.count(), usecase.files.len());
    assert_eq!(items(&walker).len(), usecase.files.len());
    for (filename, _) in items(&walker) {
        assert!(usecase.files.contains(filename));
    }
}

#[test]
fn results_are_arranged_by_path() {
    let usecase = UseCase::unnamed(3, 3, 1, &[]);
    let mut walker = walker_for(&usecase, None);
    collect(&mut walker, &usecase).unwrap();
    hash::<Blake, Buffering>(&mut walker, &usecase, &buffering).unwrap();
    let paths: Vec<&String> = items(&walker).iter().map(|item| &item.0).collect();
    let mut sorted = paths.clone();
    sorted.sort_by(|a, b| a.as_bytes().cmp(b.as_bytes()));
    assert_eq!(paths, sorted);
}

#[test]
fn listing_order_does_not_matter() {
    let mut usecase = UseCase::unnamed(3, 4, 2, &[]);
    let mut walker = walker_for(&usecase, None);
    collect(&mut walker, &usecase).unwrap();
    let first_paths: Vec<String> = items(&walker).iter().map(|item| item.0.clone()).collect();
    let forth = hash::<Blake, Buffering>(&mut walker, &usecase, &buffering).unwrap();
    for children in usecase.folders.values_mut() {
        children.reverse();
    }
    let mut walker = walker_for(&usecase, None);
    collect(&mut walker, &usecase).unwrap();
    let second_paths: Vec<String> = items(&walker).iter().map(|item| item.0.clone()).collect();
    assert_ne!(first_paths, second_paths);
    let back = hash::<Blake, Buffering>(&mut walker, &usecase, &buffering).unwrap();
    assert_eq!(forth, back);
}

#[test]
fn rehashing_reads_the_files_again() {
    let mut usecase = UseCase::unnamed(2, 3, 1, &[]);
    let mut walker = walker_for(&usecase, None);
    collect(&mut walker, &usecase).unwrap();
    let first = hash::<Blake, Buffering>(&mut walker, &usecase, &buffering).unwrap();
    let again = hash::<Blake, Buffering>(&mut walker, &usecase, &buffering).unwrap();
    assert_eq!(first, again);
    usecase.change(0);
    let changed = hash::<Blake, Buffering>(&mut walker, &usecase, &buffering).unwrap();
    assert_ne!(first, changed);
    assert_eq!(count_ok(&walker), usecase.files.len());
}

#[test]
fn collecting_starts_anew() {
    let usecase = UseCase::unnamed(2, 3, 1, &[]);
    let mut walker = walker_for(&usecase, None);
    collect(&mut walker, &usecase).unwrap();
    hash::<Blake, Buffering>(&mut walker, &usecase, &buffering).unwrap();
    assert!(!walker.digest().is_empty());
    walker.breaker().abort();
    collect(&mut walker, &usecase).unwrap();
    assert!(!walker.breaker().is_aborted());
    assert!(walker.digest().is_empty());
    assert_eq!(walker.count(), usecase.files.len());
    assert!(items(&walker).iter().all(|item| item.1.is_none()));
}

#[test]
fn threads_opt_min() {
    assert!(Options::new().threads(0, CORES).is_err());
    assert!(matches!(Options::new().threads(0, CORES), Err(E::InvalidNumberOfThreads)));
}

#[test]
fn threads_opt_max() {
    assert!(Options::new().threads(10000, CORES).is_err());
    assert!(matches!(Options::new().threads(17, CORES), Err(E::NotOptimalNumberOfThreads)));
    assert!(Options::new().threads(16, CORES).is_ok());
    assert!(Options::new().threads(10000, None).is_ok());
}

#[test]
fn with_one_thread() {
    let usecase = UseCase::unnamed(2, 2, 2, &[]);
    let mut walker = Options::new()
        .entry(Entry::from(&usecase.root, true).unwrap())
        .unwrap()
        .threads(1, CORES)
        .unwrap()
        .walker()
        .unwrap();
    collect(&mut walker, &usecase).unwrap();
    assert!(!hash::<Blake, Buffering>(&mut walker, &usecase, &buffering).unwrap().is_empty());
}

#[test]
fn with_custom_number_threads() {
    let usecase = UseCase::unnamed(2, 2, 2, &[]);
    let mut one = walker_for(&usecase, None);
    collect(&mut one, &usecase).unwrap();
    let expected = hash::<Blake, Buffering>(&mut one, &usecase, &buffering).unwrap();
    for threads in 1..17 {
        let mut walker = Options::new()
            .entry(Entry::from(&usecase.root, true).unwrap())
            .unwrap()
            .threads(threads, CORES)
            .unwrap()
            .walker()
            .unwrap();
        collect(&mut walker, &usecase).unwrap();
        let digest = hash::<Blake, Buffering>(&mut walker, &usecase, &buffering).unwrap();
        assert!(!digest.is_empty());
        assert_eq!(digest, expected);
    }
}

#[test]
fn bad_options_no_threads() {
    let usecase = UseCase::unnamed(2, 2, 2, &[]);
    let opt = Options {
        entries: vec![Entry::from(&usecase.root, true).unwrap()],
        threads: Some(0),
        tolerance: Tolerance::LogErrors,
        progress: None,
        reading_strategy: ReadingStrategy::Buffer,
        global: Entry::new(),
    };
    let mut walker = opt.walker().unwrap();
    assert!(collect(&mut walker, &usecase).is_err());
    assert!(hash::<Blake, Buffering>(&mut walker, &usecase, &buffering).unwrap().is_empty());
}

#[test]
fn bad_options_too_many_threads() {
    let usecase = UseCase::unnamed(2, 2, 2, &[]);
    let opt = Options {
        entries: vec![Entry::from(&usecase.root, true).unwrap()],
        threads: Some(10000),
        tolerance: Tolerance::LogErrors,
        progress: None,
        reading_strategy: ReadingStrategy::Buffer,
        global: Entry::new(),
    };
    let mut walker = opt.walker().unwrap();
    assert!(collect(&mut walker, &usecase).is_err());
    assert!(hash::<Blake, Buffering>(&mut walker, &usecase, &buffering).unwrap().is_empty());
}

fn strategies_agree(strategy: ReadingStrategy) {
    let usecase = UseCase::unnamed(5, 10, 3, &["aaa", "bbb", "ccc"]);
    let mut walker_a = Options::from(&usecase.root, true)
        .unwrap()
        .reading_strategy(strategy)
        .unwrap()
        .tolerance(Tolerance::LogErrors)
        .walker()
        .unwrap();
    collect(&mut walker_a, &usecase).unwrap();
    let hash_a = hash::<Blake, Mapping>(&mut walker_a, &usecase, &mapping).unwrap();
    let mut walker_b =
        Options::from(&usecase.root, true).unwrap().tolerance(Tolerance::LogErrors).walker().unwrap();
    collect(&mut walker_b, &usecase).unwrap();
    let hash_b = hash::<Blake, Buffering>(&mut walker_b, &usecase, &buffering).unwrap();
    assert_eq!(walker_a.count(), usecase.files.len());
    assert_eq!(walker_b.count(), usecase.files.len());
    assert_eq!(hash_a, hash_b);
}

#[test]
fn buffer() {
    strategies_agree(ReadingStrategy::Buffer);
}

#[test]
fn complete() {
    strategies_agree(ReadingStrategy::Complete);
}

#[test]
fn memory_mapped() {
    strategies_agree(ReadingStrategy::MemoryMapped);
}

#[test]
fn scenario() {
    strategies_agree(ReadingStrategy::Scenario(vec![
        (0..1024 * 1024, Box::new(ReadingStrategy::Complete)),
        (1024 * 1024..u64::MAX, Box::new(ReadingStrategy::Buffer)),
    ]));
}

#[test]
fn scenario_must_be_well_formed() {
    let nested = ReadingStrategy::Scenario(vec![(
        0..10,
        Box::new(ReadingStrategy::Scenario(Vec::new())),
    )]);
    assert!(matches!(Options::new().reading_strategy(nested), Err(E::NestedScenarioStrategy)));
    let gap = ReadingStrategy::Scenario(vec![
        (0..10, Box::new(ReadingStrategy::Buffer)),
        (11..20, Box::new(ReadingStrategy::Complete)),
    ]);
    assert!(matches!(
        Options::new().reading_strategy(gap),
        Err(E::InvalidRangesForScenarioStrategy(10))
    ));
    let late = ReadingStrategy::Scenario(vec![(1..10, Box::new(ReadingStrategy::Buffer))]);
    assert!(matches!(
        Options::new().reading_strategy(late),
        Err(E::InvalidRangesForScenarioStrategy(0))
    ));
    assert!(Options::new().reading_strategy(ReadingStrategy::Scenario(Vec::new())).is_ok());
}

#[test]
fn scenario_chooses_by_size() {
    let strategy = ReadingStrategy::Scenario(vec![
        (0..10, Box::new(ReadingStrategy::Complete)),
        (10..20, Box::new(ReadingStrategy::MemoryMapped)),
    ]);
    assert!(matches!(strategy.select(0), Ok(ReadingStrategy::Complete)));
    assert!(matches!(strategy.select(9), Ok(ReadingStrategy::Complete)));
    assert!(matches!(strategy.select(10), Ok(ReadingStrategy::MemoryMapped)));
    assert!(matches!(strategy.select(20), Err(E::NoRangeForScenarioStrategy(20))));
    assert!(matches!(ReadingStrategy::Buffer.select(5), Ok(ReadingStrategy::Buffer)));
    assert!(strategy.needs_size());
    assert!(!ReadingStrategy::Complete.needs_size());
}

fn digest_of(content: &[u8], strategy: &ReadingStrategy, exists: bool) -> Result<Vec<u8>, E> {
    let mut reader = Mapping { content: content.to_vec(), at: 0 };
    hash_file::<Plain, Mapping>(
        "/tmp/file",
        exists,
        Ok(content.len() as u64),
        &mut reader,
        strategy,
        &Breaker::new(),
    )
}

#[test]
fn every_strategy_feeds_the_whole_file() {
    let content: Vec<u8> = (0..100_000u32).map(|i| (i % 251) as u8).collect();
    assert_eq!(digest_of(&content, &ReadingStrategy::Buffer, true).unwrap(), content);
    assert_eq!(digest_of(&content, &ReadingStrategy::Complete, true).unwrap(), content);
    assert_eq!(digest_of(&content, &ReadingStrategy::MemoryMapped, true).unwrap(), content);
    let scenario = ReadingStrategy::Scenario(vec![
        (0..50_000, Box::new(ReadingStrategy::Complete)),
        (50_000..200_000, Box::new(ReadingStrategy::Buffer)),
    ]);
    assert_eq!(digest_of(&content, &scenario, true).unwrap(), content);
    assert_eq!(digest_of(&[], &ReadingStrategy::Buffer, true).unwrap(), Vec::<u8>::new());
}

#[test]
fn hash_file_reports_what_went_wrong() {
    assert!(matches!(
        digest_of(b"abc", &ReadingStrategy::Buffer, false),
        Err(E::FileDoesNotExists(path)) if path == "/tmp/file"
    ));
    let scenario = ReadingStrategy::Scenario(vec![(0..2, Box::new(ReadingStrategy::Buffer))]);
    assert!(matches!(digest_of(b"abc", &scenario, true), Err(E::NoRangeForScenarioStrategy(3))));
    let mut reader = Buffering { content: b"abc".to_vec(), at: 0, step: 1 };
    let unsupported = hash_file::<Plain, Buffering>(
        "/tmp/file",
        true,
        Ok(3),
        &mut reader,
        &ReadingStrategy::MemoryMapped,
        &Breaker::new(),
    );
    assert!(matches!(unsupported, Err(E::Reader(_))));
    let breaker = Breaker::new();
    breaker.abort();
    let mut reader = Buffering { content: b"abc".to_vec(), at: 0, step: 1 };
    let aborted = hash_file::<Plain, Buffering>(
        "/tmp/file",
        true,
        Ok(3),
        &mut reader,
        &ReadingStrategy::Buffer,
        &breaker,
    );
    assert!(matches!(aborted, Err(E::Aborted)));
    let mut reader = Buffering { content: b"abc".to_vec(), at: 0, step: 1 };
    let unknown = hash_file::<Plain, Buffering>(
        "/tmp/file",
        true,
        Err(std::io::Error::new(std::io::ErrorKind::PermissionDenied, "denied")),
        &mut reader,
        &scenario,
        &Breaker::new(),
    );
    assert!(matches!(unknown, Err(E::ReadingIOError(_))));
}

#[test]
fn jobs_hold_a_twentieth_of_the_paths() {
    assert_eq!(paths_per_job(0), 2);
    assert_eq!(paths_per_job(1), 2);
    assert_eq!(paths_per_job(40), 2);
    assert_eq!(paths_per_job(41), 3);
    assert_eq!(paths_per_job(60), 3);
    assert_eq!(paths_per_job(61), 4);
    assert_eq!(paths_per_job(7800), 390);
    assert_eq!(paths_per_job(10_000), 500);
    assert_eq!(paths_per_job(10_001), 500);
    assert_eq!(paths_per_job(usize::MAX), 500);
}

fn unhashed(paths: &[&str]) -> Vec<HashItem> {
    paths.iter().map(|p| (p.to_string(), None)).collect()
}

#[test]
fn jobs_are_drawn_from_the_front() {
    let mut queue = unhashed(&["/a", "/b", "/c"]);
    queue.insert(0, ("/failed".to_string(), Some(Err(E::Aborted))));
    let mut run = Hashing::new(queue, Tolerance::LogErrors);
    assert_eq!(run.count(), 4);
    assert_eq!(run.candidate().as_deref(), Some("/a"));
    run.resolve("/a".to_string(), true).unwrap();
    assert_eq!(run.candidate().as_deref(), Some("/b"));
    run.resolve("/b".to_string(), false).unwrap();
    assert_eq!(run.candidate().as_deref(), Some("/c"));
    run.resolve("/c".to_string(), true).unwrap();
    assert_eq!(run.candidate(), None);
    assert!(!run.has_paths());
    assert_eq!(run.take_job(), vec!["/a".to_string(), "/c".to_string()]);
    assert!(run.take_job().is_empty());
    assert_eq!(run.done(), 2);
    let (digest, items) = run.summarize::<Plain>().unwrap();
    assert!(digest.is_empty());
    assert_eq!(items.len(), 2);
    assert!(matches!(&items[0], (path, Some(Err(E::FileDoesNotExists(gone)))) if path == "/b" && gone == "/b"));
    assert!(matches!(&items[1], (path, Some(Err(E::Aborted))) if path == "/failed"));
}

#[test]
fn failed_items_stay_in_line() {
    let denied = || E::Reader("denied".to_string());
    let queue: Vec<HashItem> = vec![
        ("/x".to_string(), Some(Err(denied()))),
        ("/y".to_string(), Some(Err(denied()))),
        ("/a".to_string(), None),
        ("/z".to_string(), Some(Err(denied()))),
        ("/b".to_string(), Some(Ok(vec![9]))),
        ("/w".to_string(), Some(Err(denied()))),
    ];
    let mut run = Hashing::new(queue, Tolerance::StopOnErrors);
    assert_eq!(run.candidate().as_deref(), Some("/a"));
    assert_eq!(run.done(), 2);
    run.resolve("/a".to_string(), true).unwrap();
    assert_eq!(run.candidate().as_deref(), Some("/b"));
    assert_eq!(run.done(), 3);
    run.resolve("/b".to_string(), true).unwrap();
    assert_eq!(run.candidate(), None);
    assert_eq!(run.done(), 4);
    assert!(!run.has_paths());
    let (_, items) = run.summarize::<Plain>().unwrap();
    let paths: Vec<&str> = items.iter().map(|item| item.0.as_str()).collect();
    assert_eq!(paths, vec!["/w", "/x", "/y", "/z"]);
}

#[test]
fn errors_of_collecting_stay_on_their_paths() {
    let usecase = UseCase::unnamed(2, 3, 1, &[]);
    let mut walker = walker_for(&usecase, None);
    collect(&mut walker, &usecase).unwrap();
    let denied = std::io::Error::new(std::io::ErrorKind::PermissionDenied, "denied");
    walker.collected(Vec::new(), vec![("/tmp/usecase/locked".to_string(), collector::E::IO(denied))]);
    let collected = walker.count();
    assert_eq!(collected, usecase.files.len() + 1);
    let digest = hash::<Blake, Buffering>(&mut walker, &usecase, &buffering).unwrap();
    assert!(!digest.is_empty());
    assert_eq!(walker.count(), collected);
    assert_eq!(count_ok(&walker), usecase.files.len());
    assert_eq!(count_err(&walker), 1);
    assert!(items(&walker).iter().all(|item| item.1.is_some()));
    assert!(items(&walker).iter().any(|item| matches!(
        item,
        (path, Some(Err(E::CollectorError(collector::E::IO(_))))) if path == "/tmp/usecase/locked"
    )));
    let again = hash::<Blake, Buffering>(&mut walker, &usecase, &buffering).unwrap();
    assert_eq!(again, digest);
    assert_eq!(walker.count(), collected);
    let mut alone = walker_for(&usecase, None);
    alone.collect().unwrap();
    let denied = std::io::Error::new(std::io::ErrorKind::PermissionDenied, "denied");
    alone.collected(Vec::new(), vec![("/tmp/usecase/locked".to_string(), collector::E::IO(denied))]);
    assert!(hash::<Blake, Buffering>(&mut alone, &usecase, &buffering).unwrap().is_empty());
    assert_eq!(alone.count(), 1);
    assert_eq!(count_err(&alone), 1);
}

#[test]
fn an_aborted_run_does_not_proceed() {
    let run = Hashing::new(unhashed(&["/a"]), Tolerance::DoNotLogErrors);
    assert!(run.proceed(false).is_ok());
    assert!(matches!(run.proceed(true), Err(E::Aborted)));
    let state = Collecting::new(&Vec::new(), Tolerance::DoNotLogErrors);
    assert!(state.proceed(false).is_ok());
    assert!(matches!(state.proceed(true), Err(collector::E::Aborted)));
}

#[test]
fn earlier_entries_stay_collected() {
    let mut usecase = UseCase::unnamed(2, 3, 1, &[]);
    let rules = format!("{}/.rules", usecase.root);
    usecase.folders.get_mut("/tmp/usecase").unwrap().push(rules.clone());
    usecase.contents.insert(rules, (b"a**".to_vec(), 0));
    let mut walker = Options::new()
        .entry(Entry::from(&usecase.root, true).unwrap())
        .unwrap()
        .entry(
            Entry::from(&usecase.root, true)
                .unwrap()
                .context(fshasher::ContextFile::Ignore(".rules".to_string())),
        )
        .unwrap()
        .walker()
        .unwrap();
    assert!(matches!(
        collect(&mut walker, &usecase),
        Err(E::CollectorError(collector::E::PatternError(line, _))) if line == "a**"
    ));
    assert_eq!(walker.count(), usecase.files.len() + 1);
}

#[test]
fn a_full_job_takes_no_more() {
    let mut run = Hashing::new(unhashed(&["/a", "/b", "/c"]), Tolerance::LogErrors);
    for _ in 0..2 {
        let path = run.candidate().unwrap();
        run.resolve(path, true).unwrap();
    }
    assert_eq!(run.candidate(), None);
    assert!(run.has_paths());
    assert_eq!(run.take_job().len(), 2);
    assert_eq!(run.candidate().as_deref(), Some("/c"));
}

#[test]
fn the_first_round_ends_with_the_queue() {
    let job = vec!["/a".to_string()];
    assert_eq!(Hashing::first_round(0, &job), Assignment::Worker(0));
    assert_eq!(Hashing::first_round(3, &job), Assignment::Worker(3));
    assert_eq!(Hashing::first_round(0, &Vec::new()), Assignment::NoJobs);
    assert_eq!(Hashing::first_round(2, &Vec::new()), Assignment::Enough);
}

#[test]
fn a_job_goes_to_a_worker_that_is_up() {
    let job = vec!["/a".to_string()];
    assert_eq!(Hashing::next_round(1, &Vec::new(), &vec![true, true]), Assignment::NoJobs);
    assert_eq!(Hashing::next_round(1, &job, &vec![true, true]), Assignment::Worker(1));
    assert_eq!(Hashing::next_round(1, &job, &vec![false, false, true]), Assignment::Worker(2));
    assert_eq!(Hashing::next_round(7, &job, &vec![false, true]), Assignment::Worker(1));
    assert_eq!(Hashing::next_round(0, &job, &vec![false, false]), Assignment::Nobody);
}

#[test]
fn summary_is_made_in_the_order_of_the_paths() {
    let mut run = Hashing::new(Vec::new(), Tolerance::LogErrors);
    let digests = vec![
        ("/b".to_string(), vec![2u8]),
        ("/a/z".to_string(), vec![1u8]),
        ("/c".to_string(), vec![4u8]),
        ("/b b".to_string(), vec![3u8]),
    ];
    let reports = vec![("/a/y".to_string(), E::Reader("broken".to_string()))];
    assert_eq!(run.processed(digests, reports), (5, 0));
    let (digest, items) = run.summarize::<Plain>().unwrap();
    assert_eq!(digest, vec![1, 2, 3, 4]);
    let paths: Vec<&str> = items.iter().map(|item| item.0.as_str()).collect();
    assert_eq!(paths, vec!["/a/y", "/a/z", "/b", "/b b", "/c"]);
}

#[test]
fn summary_without_digests_needs_no_hasher() {
    let mut run = Hashing::new(Vec::new(), Tolerance::LogErrors);
    run.processed(Vec::new(), vec![("/a".to_string(), E::Reader("broken".to_string()))]);
    let (digest, items) = run.summarize::<Broken>().unwrap();
    assert!(digest.is_empty());
    assert_eq!(items.len(), 1);
    let mut run = Hashing::new(Vec::new(), Tolerance::LogErrors);
    run.processed(vec![("/a".to_string(), vec![1u8])], Vec::new());
    assert!(matches!(run.summarize::<Broken>(), Err(E::Hasher(detail)) if detail == "cannot absorb"));
}

#[test]
fn summary_does_not_depend_on_arrival() {
    let digests = vec![
        ("/a".to_string(), vec![1u8, 1]),
        ("/b".to_string(), vec![2u8, 2]),
        ("/c".to_string(), vec![3u8, 3]),
    ];
    let mut forth = Hashing::new(Vec::new(), Tolerance::LogErrors);
    forth.processed(digests.clone(), Vec::new());
    let mut back = Hashing::new(Vec::new(), Tolerance::LogErrors);
    for digest in digests.into_iter().rev() {
        back.processed(vec![digest], Vec::new());
    }
    let forth = forth.summarize::<Blake>().unwrap();
    let back = back.summarize::<Blake>().unwrap();
    assert_eq!(forth.0, back.0);
    assert_eq!(forth.0, blake3::hash(&[1, 1, 2, 2, 3, 3]).as_bytes().to_vec());
}

#[test]
fn a_path_that_comes_twice_changes_nothing() {
    let digests = vec![
        ("/a".to_string(), vec![1u8, 1]),
        ("/b".to_string(), vec![2u8, 2]),
        ("/a".to_string(), vec![1u8, 1]),
    ];
    let reports = || vec![("/b".to_string(), E::Reader("broken".to_string()))];
    let mut forth = Hashing::new(Vec::new(), Tolerance::LogErrors);
    forth.processed(digests.clone(), reports());
    let mut back = Hashing::new(Vec::new(), Tolerance::LogErrors);
    for digest in digests.into_iter().rev() {
        back.processed(vec![digest], Vec::new());
    }
    back.processed(Vec::new(), reports());
    let forth = forth.summarize::<Plain>().unwrap();
    let back = back.summarize::<Plain>().unwrap();
    assert_eq!(forth.0, vec![1, 1, 1, 1, 2, 2]);
    assert_eq!(forth.0, back.0);
    assert_eq!(forth.1.len(), 4);
}

#[test]
fn tolerance_decides_on_errors() {
    let mut hashes: Vec<HashItem> = Vec::new();
    let broken = || E::Reader("broken".to_string());
    assert!(check_err("/a".to_string(), broken(), &Tolerance::LogErrors, &mut hashes).is_ok());
    assert!(check_err("/b".to_string(), broken(), &Tolerance::DoNotLogErrors, &mut hashes).is_ok());
    assert_eq!(hashes.len(), 2);
    match check_err("/c".to_string(), broken(), &Tolerance::StopOnErrors, &mut hashes) {
        Err(E::Bound(path, inner)) => {
            assert_eq!(path, "/c");
            assert!(matches!(*inner, E::Reader(_)));
        }
        _ => panic!("the error must stop the run"),
    }
    assert_eq!(hashes.len(), 2);
    assert!(matches!(
        check_err("/d".to_string(), E::Aborted, &Tolerance::LogErrors, &mut hashes),
        Err(E::Aborted)
    ));
    assert_eq!(hashes.len(), 2);
}

#[test]
fn a_worker_stops_on_errors_if_told_so() {
    let mut collected = Vec::new();
    let mut reports = Vec::new();
    let tolerant = Tolerance::LogErrors;
    assert!(Worker::run("/a".to_string(), Ok(vec![1]), &tolerant, &mut collected, &mut reports)
        .is_none());
    let broken = Err(E::Hasher("broken".to_string()));
    assert!(Worker::run("/b".to_string(), broken, &tolerant, &mut collected, &mut reports).is_none());
    assert_eq!(collected, vec![("/a".to_string(), vec![1u8])]);
    assert_eq!(reports.len(), 1);
    let broken = Err(E::Hasher("broken".to_string()));
    let strict = Tolerance::StopOnErrors;
    assert!(matches!(
        Worker::run("/c".to_string(), broken, &strict, &mut collected, &mut reports),
        Some(Action::Error(path, E::Hasher(_))) if path == "/c"
    ));
    assert!(matches!(
        Worker::run("/d".to_string(), Err(E::Aborted), &tolerant, &mut collected, &mut reports),
        Some(Action::Error(_, E::Aborted))
    ));
    assert_eq!(reports.len(), 1);
}

#[test]
fn cancellation_cancellation() {
    let usecase = UseCase::unnamed(5, 10, 3, &[]);
    let mut walker = Options::from(&usecase.root, true).unwrap().progress(10).walker().unwrap();
    let rx_progress = walker.progress().unwrap();
    collect(&mut walker, &usecase).unwrap();
    let breaker = walker.breaker();
    let listener = || {
        while rx_progress.try_recv().is_ok() {
            breaker.abort();
        }
    };
    let res = hash_with::<Blake, Buffering>(&mut walker, &usecase, &buffering, &listener);
    if let Err(err) = res {
        assert!(matches!(err, E::Aborted));
    } else {
        panic!("expecting hashing would be done with error");
    }
    assert!(breaker.is_aborted());
}

#[test]
fn progress() {
    let usecase = UseCase::unnamed(5, 10, 3, &[]);
    let mut walker = Options::from(&usecase.root, true).unwrap().progress(10).walker().unwrap();
    let rx_progress = walker.progress().unwrap();
    assert!(walker.progress().is_none());
    collect(&mut walker, &usecase).unwrap();
    hash::<Blake, Buffering>(&mut walker, &usecase, &buffering).unwrap();
    let mut ticks = 0;
    while let Ok(tick) = rx_progress.try_recv() {
        assert!(matches!(tick.job, fshasher::JobType::Hashing));
        assert_eq!(tick.total, usecase.files.len());
        assert!(tick.done <= tick.total);
        ticks += 1;
    }
    assert_eq!(ticks, 10);
    assert!(walker.progress().is_some());
}

#[test]
fn a_full_channel_drops_ticks() {
    let tick = |done| Tick { done, total: 3, job: fshasher::JobType::Collecting };
    let (bounded, rx) = Progress::channel(1);
    let rx = rx.unwrap();
    assert_eq!(bounded.tx.deliver(tick(1)), Delivery::Sent);
    assert_eq!(bounded.tx.deliver(tick(2)), Delivery::Full);
    assert!(!bounded.tx.send(tick(3)));
    assert_eq!(rx.recv().unwrap().done, 1);
    assert!(rx.try_recv().is_err());
    drop(rx);
    assert_eq!(bounded.tx.deliver(tick(4)), Delivery::Closed);
    assert!(bounded.tx.send(tick(5)));
    let (unbounded, rx) = Progress::channel(0);
    let rx = rx.unwrap();
    for done in 0..100 {
        assert_eq!(unbounded.clone().tx.deliver(tick(done)), Delivery::Sent);
    }
    unbounded.notify(fshasher::JobType::Hashing, 7, 9);
    assert_eq!(rx.try_iter().count(), 101);
    assert!(!Delivery::Sent.failed());
    assert!(!Delivery::Full.failed());
    assert!(Delivery::Closed.failed());
    assert_eq!(fshasher::JobType::Collecting.as_str(), "collecting");
    assert_eq!(fshasher::JobType::Hashing.as_str(), "hashing");
}

#[test]
fn hashers_compute_known_digests() {
    let mut blake = Blake::new();
    blake.absorb(b"ab").unwrap();
    blake.absorb(b"c").unwrap();
    assert!(blake.hash().is_err());
    blake.finish().unwrap();
    assert_eq!(
        to_hex(blake.hash().unwrap()),
        "6437b3ac38465133ffb63b75273a8db548c558465d79db03fd359c6cd5bd9d85"
    );
    assert!(blake.absorb(b"d").is_err());
    let mut empty = Blake::new();
    empty.finish().unwrap();
    assert_eq!(
        to_hex(empty.hash().unwrap()),
        "af1349b9f5f9a1a6a0404dea36dcc9499bcb25c9adc112b7cc9a93cae41f3262"
    );
    let mut sha = Sha512::new();
    sha.absorb(b"a").unwrap();
    sha.absorb(b"bc").unwrap();
    assert!(sha.hash().is_err());
    sha.finish().unwrap();
    assert_eq!(
        to_hex(sha.hash().unwrap()),
        "ddaf35a193617abacc417349ae20413112e6fa4e89a97ea20a9eeee64b55d39a\
         2192992a274fc1a836ba3c23a3feebbd454d4423643ce80e2a9ac94fa54ca49f"
    );
    let digest = sha.hash().unwrap().to_vec();
    assert_eq!(sha.finish().unwrap_err(), "Hashing already finished");
    assert_eq!(sha.absorb(b"d").unwrap_err(), "Hashing already finished");
    assert_eq!(sha.hash().unwrap(), digest.as_slice());
}

#[test]
fn tracking() {
    let mut usecase = UseCase::unnamed(2, 2, 2, &[]);
    let mut walker = walker_for(&usecase, None);
    let mut kept = PreviousHash::new();
    let mut states: Vec<bool> = Vec::new();
    let mut is_same = |walker: &mut Walker, usecase: &UseCase| {
        collect(walker, usecase).unwrap();
        let digest = hash::<Blake, Buffering>(walker, usecase, &buffering).unwrap();
        kept.is_same(&digest)
    };
    states.push(is_same(&mut walker, &usecase));
    states.push(is_same(&mut walker, &usecase));
    states.push(is_same(&mut walker, &usecase));
    usecase.change(1);
    states.push(is_same(&mut walker, &usecase));
    states.push(is_same(&mut walker, &usecase));
    assert!(!states[0]);
    assert!(states[1]);
    assert!(states[2]);
    assert!(!states[3]);
    assert!(states[4]);
}

#[test]
fn options_have_a_name() {
    let entry = Entry::from("/tmp/root", true)
        .unwrap()
        .including(fshasher::Filter::Files("*.rs".to_string()))
        .unwrap()
        .exclude(fshasher::Filter::Folders("target".to_string()))
        .unwrap()
        .pattern(fshasher::PatternFilter::Cmb(vec![
            fshasher::PatternFilter::Accept("*a*".to_string()),
            fshasher::PatternFilter::Ignore("*b*".to_string()),
        ]))
        .unwrap()
        .pattern(fshasher::PatternFilter::Ignore("*c*".to_string()))
        .unwrap()
        .context(fshasher::ContextFile::Ignore(".gitignore".to_string()))
        .context(fshasher::ContextFile::Accept(".accept".to_string()));
    assert_eq!(entry.to_text(), "/tmp/root;(*.rs);(target);(*a*,*b*;*c*);(.gitignore;.accept);");
    let options = Options::new()
        .entry(entry)
        .unwrap()
        .path("/tmp/other", true)
        .unwrap()
        .exclude(fshasher::Filter::Common("*.log".to_string()))
        .unwrap();
    let written = "/tmp/root;(*.rs);(target);(*a*,*b*;*c*);(.gitignore;.accept);;\
                   /tmp/other;();();();();:;();(*.log);();();";
    assert_eq!(options.hash(), written.as_bytes().to_vec());
    assert_eq!(alias(&options), blake3::hash(written.as_bytes()).to_hex().to_string());
    assert_eq!(get_storage_name(), "tracking");
    assert_eq!(to_hex(&[0x00, 0x0f, 0xa5, 0xff]), "000fa5ff");
}
