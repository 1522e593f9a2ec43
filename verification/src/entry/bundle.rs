//! The entry itself: a root folder and its filters.

use crate::entry::context::{ContextFile, ContextFileAccepted};
use crate::entry::filter::{Filter, FilterAccepted};
use crate::entry::globbing::glob_compiles;
use crate::entry::pattern::{PatternFilter, PatternFilterAccepted};
use crate::entry::E;
use crate::paths::{is_absolute, path_is_absolute, PathKind};
use crate::text::{join, joined, texts};
use vstd::string::StringExecFns;
use vstd::prelude::*;

verus! {

/// Whether `filter` occurs in `list`.
pub open spec fn holds_filter(list: Seq<FilterAccepted>, filter: &FilterAccepted) -> bool {
    exists|i: int| 0 <= i < list.len() && (#[trigger] list[i]).same_as(filter)
}

/// Whether `pattern` occurs in `list`.
pub open spec fn holds_pattern(
    list: Seq<PatternFilterAccepted>,
    pattern: &PatternFilterAccepted,
) -> bool {
    exists|i: int| 0 <= i < list.len() && (#[trigger] list[i]).same_as(pattern)
}

/// Whether `file` occurs in `list`.
pub open spec fn holds_context(list: Seq<ContextFileAccepted>, file: &ContextFileAccepted) -> bool {
    exists|i: int| 0 <= i < list.len() && (#[trigger] list[i]).same_as(file)
}

/// Whether one of `patterns` accepts `path`.
pub open spec fn some_pattern_accepts(
    patterns: Seq<PatternFilterAccepted>,
    path: Seq<char>,
) -> bool {
    exists|i: int| 0 <= i < patterns.len() && (#[trigger] patterns[i]).accepts(path)
}

/// Whether one of `filters` matches `path`; a filter that does not speak of
/// the path does not match it.
pub open spec fn some_filter_matches(
    filters: Seq<FilterAccepted>,
    path: Seq<char>,
    kind: PathKind,
) -> bool {
    exists|i: int|
        0 <= i < filters.len() && (#[trigger] filters[i]).verdict(path, kind) == Some(true)
}

/// Whether one of `filters` lets `path` pass; a filter that does not speak of
/// the path lets it pass.
pub open spec fn some_filter_admits(
    filters: Seq<FilterAccepted>,
    path: Seq<char>,
    kind: PathKind,
) -> bool {
    exists|i: int|
        0 <= i < filters.len() && (#[trigger] filters[i]).verdict(path, kind) != Some(false)
}

/// What an entry with these filters says of `path`, which leads to a thing of
/// kind `kind`.
///
/// Where there are pattern filters, they alone decide: the path passes where
/// one of them accepts it. Else a matching exclude filter rejects the path;
/// and where nothing excludes it, the path passes if there is no include
/// filter, or if one of the include filters lets it pass.
pub open spec fn verdict_of(
    included: Seq<FilterAccepted>,
    exclude: Seq<FilterAccepted>,
    patterns: Seq<PatternFilterAccepted>,
    path: Seq<char>,
    kind: PathKind,
) -> bool {
    if patterns.len() > 0 {
        some_pattern_accepts(patterns, path)
    } else if some_filter_matches(exclude, path, kind) {
        false
    } else if included.len() == 0 {
        true
    } else {
        some_filter_admits(included, path, kind)
    }
}

/// Where there are pattern filters, they decide alone: the include and
/// exclude filters, and what the path leads to, make no difference.
pub proof fn theorem_patterns_decide_alone(
    patterns: Seq<PatternFilterAccepted>,
    included: Seq<FilterAccepted>,
    exclude: Seq<FilterAccepted>,
    other_included: Seq<FilterAccepted>,
    other_exclude: Seq<FilterAccepted>,
    path: Seq<char>,
    kind: PathKind,
    other_kind: PathKind,
)
    requires
        patterns.len() > 0,
    ensures
        verdict_of(included, exclude, patterns, path, kind) == verdict_of(
            other_included,
            other_exclude,
            patterns,
            path,
            other_kind,
        ),
        verdict_of(included, exclude, patterns, path, kind) == some_pattern_accepts(
            patterns,
            path,
        ),
{
}

/// Without pattern filters, an exclude filter that matches a path rejects
/// it, whatever the include filters say.
pub proof fn theorem_exclude_dominates(
    included: Seq<FilterAccepted>,
    exclude: Seq<FilterAccepted>,
    path: Seq<char>,
    kind: PathKind,
)
    requires
        some_filter_matches(exclude, path, kind),
    ensures
        !verdict_of(included, exclude, Seq::empty(), path, kind),
{
}

/// The texts of the globs of the filters.
pub open spec fn filter_labels(filters: Seq<FilterAccepted>) -> Seq<Seq<char>> {
    filters.map_values(|filter: FilterAccepted| filter.text())
}

/// The pattern filters written out.
pub open spec fn pattern_labels(patterns: Seq<PatternFilterAccepted>) -> Seq<Seq<char>> {
    patterns.map_values(|pattern: PatternFilterAccepted| pattern.label())
}

/// The names of the context files.
pub open spec fn context_labels(files: Seq<ContextFileAccepted>) -> Seq<Seq<char>> {
    files.map_values(|file: ContextFileAccepted| file.name())
}

fn filters_text(filters: &Vec<FilterAccepted>) -> (r: String)
    ensures
        r@ == joined(filter_labels(filters@), ";"@),
{
    let mut labels: Vec<String> = Vec::new();
    let mut i: usize = 0;
    while i < filters.len()
        invariant
            i <= filters@.len(),
            texts(labels@) == filter_labels(filters@.take(i as int)),
        decreases filters@.len() - i,
    {
        let label = filters[i].as_str().to_owned();
        proof {
            assert(filters@.take(i + 1) =~= filters@.take(i as int).push(filters@[i as int]));
            assert(texts(labels@.push(label)) =~= texts(labels@).push(label@));
            assert(filter_labels(filters@.take(i + 1)) =~= filter_labels(
                filters@.take(i as int),
            ).push(filters@[i as int].text()));
        }
        labels.push(label);
        i += 1;
    }
    assert(filters@.take(i as int) =~= filters@);
    join(&labels, ";")
}

fn patterns_text(patterns: &Vec<PatternFilterAccepted>) -> (r: String)
    ensures
        r@ == joined(pattern_labels(patterns@), ";"@),
{
    let mut labels: Vec<String> = Vec::new();
    let mut i: usize = 0;
    while i < patterns.len()
        invariant
            i <= patterns@.len(),
            texts(labels@) == pattern_labels(patterns@.take(i as int)),
        decreases patterns@.len() - i,
    {
        let label = patterns[i].to_text();
        proof {
            assert(patterns@.take(i + 1) =~= patterns@.take(i as int).push(patterns@[i as int]));
            assert(texts(labels@.push(label)) =~= texts(labels@).push(label@));
            assert(pattern_labels(patterns@.take(i + 1)) =~= pattern_labels(
                patterns@.take(i as int),
            ).push(patterns@[i as int].label()));
        }
        labels.push(label);
        i += 1;
    }
    assert(patterns@.take(i as int) =~= patterns@);
    join(&labels, ";")
}

fn contexts_text(files: &Vec<ContextFileAccepted>) -> (r: String)
    ensures
        r@ == joined(context_labels(files@), ";"@),
{
    let mut labels: Vec<String> = Vec::new();
    let mut i: usize = 0;
    while i < files.len()
        invariant
            i <= files@.len(),
            texts(labels@) == context_labels(files@.take(i as int)),
        decreases files@.len() - i,
    {
        let label = files[i].filename().to_owned();
        proof {
            assert(files@.take(i + 1) =~= files@.take(i as int).push(files@[i as int]));
            assert(texts(labels@.push(label)) =~= texts(labels@).push(label@));
            assert(context_labels(files@.take(i + 1)) =~= context_labels(
                files@.take(i as int),
            ).push(files@[i as int].name()));
        }
        labels.push(label);
        i += 1;
    }
    assert(files@.take(i as int) =~= files@);
    join(&labels, ";")
}

fn contains_filter(list: &Vec<FilterAccepted>, filter: &FilterAccepted) -> (r: bool)
    ensures
        r == holds_filter(list@, filter),
{
    let mut i: usize = 0;
    while i < list.len()
        invariant
            i <= list@.len(),
            forall|j: int| 0 <= j < i ==> !(#[trigger] list@[j]).same_as(filter),
        decreases list@.len() - i,
    {
        if list[i].same(filter) {
            return true;
        }
        i += 1;
    }
    false
}

fn contains_pattern(list: &Vec<PatternFilterAccepted>, pattern: &PatternFilterAccepted) -> (r:
    bool)
    ensures
        r == holds_pattern(list@, pattern),
{
    let mut i: usize = 0;
    while i < list.len()
        invariant
            i <= list@.len(),
            forall|j: int| 0 <= j < i ==> !(#[trigger] list@[j]).same_as(pattern),
        decreases list@.len() - i,
    {
        if list[i].same(pattern) {
            return true;
        }
        i += 1;
    }
    false
}

fn contains_context(list: &Vec<ContextFileAccepted>, file: &ContextFileAccepted) -> (r: bool)
    ensures
        r == holds_context(list@, file),
{
    let mut i: usize = 0;
    while i < list.len()
        invariant
            i <= list@.len(),
            forall|j: int| 0 <= j < i ==> !(#[trigger] list@[j]).same_as(file),
        decreases list@.len() - i,
    {
        if list[i].same(file) {
            return true;
        }
        i += 1;
    }
    false
}

fn any_pattern_accepts(patterns: &Vec<PatternFilterAccepted>, path: &str) -> (r: bool)
    ensures
        r == some_pattern_accepts(patterns@, path@),
{
    let mut i: usize = 0;
    while i < patterns.len()
        invariant
            i <= patterns@.len(),
            forall|j: int| 0 <= j < i ==> !(#[trigger] patterns@[j]).accepts(path@),
        decreases patterns@.len() - i,
    {
        if patterns[i].filtered(path) {
            return true;
        }
        i += 1;
    }
    false
}

fn any_filter_matches(filters: &Vec<FilterAccepted>, path: &str, kind: PathKind) -> (r: bool)
    ensures
        r == some_filter_matches(filters@, path@, kind),
{
    let mut i: usize = 0;
    while i < filters.len()
        invariant
            i <= filters@.len(),
            forall|j: int|
                0 <= j < i ==> (#[trigger] filters@[j]).verdict(path@, kind) != Some(true),
        decreases filters@.len() - i,
    {
        match filters[i].filtered(path, kind) {
            Some(true) => {
                return true;
            },
            _ => {},
        }
        i += 1;
    }
    false
}

fn any_filter_admits(filters: &Vec<FilterAccepted>, path: &str, kind: PathKind) -> (r: bool)
    ensures
        r == some_filter_admits(filters@, path@, kind),
{
    let mut i: usize = 0;
    while i < filters.len()
        invariant
            i <= filters@.len(),
            forall|j: int|
                0 <= j < i ==> (#[trigger] filters@[j]).verdict(path@, kind) == Some(false),
        decreases filters@.len() - i,
    {
        match filters[i].filtered(path, kind) {
            Some(false) => {},
            _ => {
                return true;
            },
        }
        i += 1;
    }
    false
}

/// A root folder and the filters that decide which paths under it are
/// accepted. An entry does not change once it is built.
#[derive(Debug)]
pub struct Entry {
    entry: String,
    included: Vec<FilterAccepted>,
    exclude: Vec<FilterAccepted>,
    patterns: Vec<PatternFilterAccepted>,
    context: Vec<ContextFileAccepted>,
}

impl Entry {
    /// The root folder.
    pub closed spec fn root(&self) -> Seq<char> {
        self.entry@
    }

    /// The include filters, in the order in which they were added.
    pub closed spec fn include_filters(&self) -> Seq<FilterAccepted> {
        self.included@
    }

    /// The exclude filters, in the order in which they were added.
    pub closed spec fn exclude_filters(&self) -> Seq<FilterAccepted> {
        self.exclude@
    }

    /// The pattern filters, in the order in which they were added.
    pub closed spec fn pattern_filters(&self) -> Seq<PatternFilterAccepted> {
        self.patterns@
    }

    /// The context files, in the order in which they were added.
    pub closed spec fn context_files(&self) -> Seq<ContextFileAccepted> {
        self.context@
    }

    /// What the entry says of `path`, which leads to a thing of kind `kind`:
    /// see [`verdict_of`].
    pub open spec fn accepts(&self, path: Seq<char>, kind: PathKind) -> bool {
        verdict_of(
            self.include_filters(),
            self.exclude_filters(),
            self.pattern_filters(),
            path,
            kind,
        )
    }

    /// An entry without a root and without filters.
    pub fn new() -> (r: Self)
        ensures
            r.root() == Seq::<char>::empty(),
            r.include_filters() == Seq::<FilterAccepted>::empty(),
            r.exclude_filters() == Seq::<FilterAccepted>::empty(),
            r.pattern_filters() == Seq::<PatternFilterAccepted>::empty(),
            r.context_files() == Seq::<ContextFileAccepted>::empty(),
    {
        Entry {
            entry: String::new(),
            included: Vec::new(),
            exclude: Vec::new(),
            patterns: Vec::new(),
            context: Vec::new(),
        }
    }

    /// An entry for the folder `path`, without filters. `is_dir` says whether
    /// the path leads to a folder.
    pub fn from(path: &str, is_dir: bool) -> (r: Result<Self, E>)
        ensures
            r is Ok <==> path_is_absolute(path@) && is_dir,
            r matches Ok(entry) ==> {
                &&& entry.root() == path@
                &&& entry.include_filters() == Seq::<FilterAccepted>::empty()
                &&& entry.exclude_filters() == Seq::<FilterAccepted>::empty()
                &&& entry.pattern_filters() == Seq::<PatternFilterAccepted>::empty()
                &&& entry.context_files() == Seq::<ContextFileAccepted>::empty()
            },
            !path_is_absolute(path@) ==> (r matches Err(E::RelativePathAsEntry(p)) && p@ == path@),
            path_is_absolute(path@) && !is_dir ==> (r matches Err(E::OnlyFolderAsCwd(p)) && p@
                == path@),
    {
        Entry::new().entry(path, is_dir)
    }

    /// Sets the root folder. `is_dir` says whether the path leads to a
    /// folder. A relative path is refused, and so is one that leads to no
    /// folder.
    pub fn entry(self, path: &str, is_dir: bool) -> (r: Result<Self, E>)
        ensures
            r is Ok <==> path_is_absolute(path@) && is_dir,
            r matches Ok(entry) ==> {
                &&& entry.root() == path@
                &&& entry.include_filters() == self.include_filters()
                &&& entry.exclude_filters() == self.exclude_filters()
                &&& entry.pattern_filters() == self.pattern_filters()
                &&& entry.context_files() == self.context_files()
            },
            !path_is_absolute(path@) ==> (r matches Err(E::RelativePathAsEntry(p)) && p@ == path@),
            path_is_absolute(path@) && !is_dir ==> (r matches Err(E::OnlyFolderAsCwd(p)) && p@
                == path@),
    {
        proof {
            use_type_invariant(&self);
        }
        if !is_absolute(path) {
            return Err(E::RelativePathAsEntry(path.to_owned()));
        } else if !is_dir {
            return Err(E::OnlyFolderAsCwd(path.to_owned()));
        }
        Ok(
            Entry {
                entry: path.to_owned(),
                included: self.included,
                exclude: self.exclude,
                patterns: self.patterns,
                context: self.context,
            },
        )
    }

    /// Adds a context file, unless the entry holds it already.
    pub fn context(self, context: ContextFile) -> (r: Self)
        ensures
            r.root() == self.root(),
            r.include_filters() == self.include_filters(),
            r.exclude_filters() == self.exclude_filters(),
            r.pattern_filters() == self.pattern_filters(),
            r.context_files() == if holds_context(self.context_files(), &context.accept_spec()) {
                self.context_files()
            } else {
                self.context_files().push(context.accept_spec())
            },
    {
        proof {
            use_type_invariant(&self);
        }
        let accepted = context.accept();
        let mut list = self.context;
        if !contains_context(&list, &accepted) {
            list.push(accepted);
        }
        Entry {
            entry: self.entry,
            included: self.included,
            exclude: self.exclude,
            patterns: self.patterns,
            context: list,
        }
    }

    /// Adds an include filter, unless the entry holds the same filter
    /// already, as an include or as an exclude filter. Fails exactly where
    /// the filter's text is no well-formed glob.
    pub fn including(self, filter: Filter) -> (r: Result<Self, E>)
        ensures
            r is Ok <==> glob_compiles(filter.text()),
            r matches Ok(entry) ==> {
                &&& entry.root() == self.root()
                &&& entry.exclude_filters() == self.exclude_filters()
                &&& entry.pattern_filters() == self.pattern_filters()
                &&& entry.context_files() == self.context_files()
                &&& exists|accepted: FilterAccepted| #[trigger]
                    accepted.compiled_from(&filter) && entry.include_filters() == if holds_filter(
                        self.include_filters(),
                        &accepted,
                    ) || holds_filter(self.exclude_filters(), &accepted) {
                        self.include_filters()
                    } else {
                        self.include_filters().push(accepted)
                    }
            },
            r matches Err(err) ==> err matches E::PatternError(text, _) && text@ == filter.text(),
    {
        proof {
            use_type_invariant(&self);
        }
        let ghost written = filter;
        let accepted = match filter.accept() {
            Ok(accepted) => accepted,
            Err(err) => {
                return Err(err);
            },
        };
        assert(accepted.compiled_from(&written));
        let mut list = self.included;
        if !contains_filter(&list, &accepted) && !contains_filter(&self.exclude, &accepted) {
            list.push(accepted);
        }
        Ok(
            Entry {
                entry: self.entry,
                included: list,
                exclude: self.exclude,
                patterns: self.patterns,
                context: self.context,
            },
        )
    }

    /// Adds an exclude filter, unless the entry holds the same filter
    /// already, as an include or as an exclude filter. Fails exactly where
    /// the filter's text is no well-formed glob.
    pub fn exclude(self, filter: Filter) -> (r: Result<Self, E>)
        ensures
            r is Ok <==> glob_compiles(filter.text()),
            r matches Ok(entry) ==> {
                &&& entry.root() == self.root()
                &&& entry.include_filters() == self.include_filters()
                &&& entry.pattern_filters() == self.pattern_filters()
                &&& entry.context_files() == self.context_files()
                &&& exists|accepted: FilterAccepted| #[trigger]
                    accepted.compiled_from(&filter) && entry.exclude_filters() == if holds_filter(
                        self.include_filters(),
                        &accepted,
                    ) || holds_filter(self.exclude_filters(), &accepted) {
                        self.exclude_filters()
                    } else {
                        self.exclude_filters().push(accepted)
                    }
            },
            r matches Err(err) ==> err matches E::PatternError(text, _) && text@ == filter.text(),
    {
        proof {
            use_type_invariant(&self);
        }
        let ghost written = filter;
        let accepted = match filter.accept() {
            Ok(accepted) => accepted,
            Err(err) => {
                return Err(err);
            },
        };
        assert(accepted.compiled_from(&written));
        let mut list = self.exclude;
        if !contains_filter(&self.included, &accepted) && !contains_filter(&list, &accepted) {
            list.push(accepted);
        }
        Ok(
            Entry {
                entry: self.entry,
                included: self.included,
                exclude: list,
                patterns: self.patterns,
                context: self.context,
            },
        )
    }

    /// Adds a pattern filter, unless the entry holds the same one already.
    /// Fails exactly where the filter is not
    /// [`PatternFilter::acceptable`].
    pub fn pattern(self, pattern: PatternFilter) -> (r: Result<Self, E>)
        ensures
            r is Ok <==> pattern.acceptable(),
            r matches Ok(entry) ==> {
                &&& entry.root() == self.root()
                &&& entry.include_filters() == self.include_filters()
                &&& entry.exclude_filters() == self.exclude_filters()
                &&& entry.context_files() == self.context_files()
                &&& exists|accepted: PatternFilterAccepted| #[trigger]
                    accepted.mirrors(&pattern) && accepted.wf() && entry.pattern_filters()
                        == if holds_pattern(self.pattern_filters(), &accepted) {
                        self.pattern_filters()
                    } else {
                        self.pattern_filters().push(accepted)
                    }
            },
            r matches Err(err) ==> pattern.refused_with(err),
    {
        proof {
            use_type_invariant(&self);
        }
        let ghost written = pattern;
        let accepted = match pattern.accept() {
            Ok(accepted) => accepted,
            Err(err) => {
                return Err(err);
            },
        };
        assert(accepted.mirrors(&written));
        let mut list = self.patterns;
        if !contains_pattern(&list, &accepted) {
            list.push(accepted);
        }
        Ok(
            Entry {
                entry: self.entry,
                included: self.included,
                exclude: self.exclude,
                patterns: list,
                context: self.context,
            },
        )
    }

    /// Whether the entry accepts `path`, which leads to a thing of kind
    /// `kind`.
    pub fn filtered(&self, path: &str, kind: PathKind) -> (r: bool)
        ensures
            r == self.accepts(path@, kind),
    {
        if !self.patterns.is_empty() {
            return any_pattern_accepts(&self.patterns, path);
        } else if any_filter_matches(&self.exclude, path, kind) {
            return false;
        }
        if self.included.is_empty() {
            true
        } else {
            any_filter_admits(&self.included, path, kind)
        }
    }

    /// The entry written out: the root, then the include filters, the
    /// exclude filters, the pattern filters and the context files, each list
    /// in brackets with `;` between its items, and a `;` behind the root and
    /// behind each list.
    pub open spec fn text(&self) -> Seq<char> {
        self.root() + ";("@ + joined(filter_labels(self.include_filters()), ";"@) + ");("@
            + joined(filter_labels(self.exclude_filters()), ";"@) + ");("@ + joined(
            pattern_labels(self.pattern_filters()),
            ";"@,
        ) + ");("@ + joined(context_labels(self.context_files()), ";"@) + ");"@
    }

    /// Computes [`Entry::text`].
    pub fn to_text(&self) -> (r: String)
        ensures
            r@ == self.text(),
    {
        let mut text = self.entry.clone();
        text.append(";(");
        text.append(filters_text(&self.included).as_str());
        text.append(");(");
        text.append(filters_text(&self.exclude).as_str());
        text.append(");(");
        text.append(patterns_text(&self.patterns).as_str());
        text.append(");(");
        text.append(contexts_text(&self.context).as_str());
        text.append(");");
        text
    }

    /// The root folder.
    pub fn path(&self) -> (r: &str)
        ensures
            r@ == self.root(),
    {
        self.entry.as_str()
    }

    /// The context files of the entry.
    pub fn contexts(&self) -> (r: &Vec<ContextFileAccepted>)
        ensures
            r@ == self.context_files(),
    {
        &self.context
    }

    #[verifier::type_invariant]
    spec fn well_formed(&self) -> bool {
        forall|i: int| 0 <= i < self.patterns@.len() ==> (#[trigger] self.patterns@[i]).wf()
    }
}

impl Default for Entry {
    /// An entry without a root and without filters.
    fn default() -> (r: Self)
        ensures
            r.root() == Seq::<char>::empty(),
            r.include_filters() == Seq::<FilterAccepted>::empty(),
            r.exclude_filters() == Seq::<FilterAccepted>::empty(),
            r.pattern_filters() == Seq::<PatternFilterAccepted>::empty(),
            r.context_files() == Seq::<ContextFileAccepted>::empty(),
    {
        Entry::new()
    }
}

} // verus!
