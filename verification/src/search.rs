//! Bounded breadth-first file search over a project tree.
//!
//! The search reads no directory itself. It says which directories to
//! read next, is told what they hold, and keeps the queue, the set of
//! directories already seen, and the candidates found so far. When
//! nothing is left to read, or enough candidates are in, it ranks what it
//! has and returns the best.

use std::collections::VecDeque;
use vstd::prelude::*;
use crate::fuzzy::{fuzzy_match, fuzzy_match_score};
use crate::hits::{
    candidate_views,
    hit_views,
    hits_of,
    CandidateView,
    FileSearchHit,
    HitView,
    ScoredFileHit,
    SearchFilesResponse,
};
use crate::paths::{
    is_absolute,
    is_within,
    lemma_joined_is_within,
    lemma_within_reflexive,
    lemma_within_transitive,
    extension_chars,
    extension_of,
    is_hidden,
    join_chars,
    joined,
    name_is_hidden,
    normalize_chars,
    normalized,
    relative_chars,
    relative_to,
};
use crate::ranking::{rank, ranked};
use crate::text::{
    chars_of,
    holds_text,
    lowercase,
    string_of,
    text_of,
    text_set,
    texts,
    to_lowercase,
    trim_chars,
    trimmed,
};

verus! {

/// Result limit used when the caller names none.
pub const DEFAULT_FILE_SEARCH_LIMIT: usize = 60;

/// Largest result limit a caller can obtain.
pub const MAX_FILE_SEARCH_LIMIT: usize = 400;

/// Number of directories handed out for reading at a time.
pub const FILE_SEARCH_MAX_CONCURRENCY: usize = 5;

/// The result limit that a request for `value` results obtains.
pub open spec fn clamped_limit(value: Option<usize>) -> int {
    let wanted: int = match value {
        Some(n) => n as int,
        None => DEFAULT_FILE_SEARCH_LIMIT as int,
    };
    if wanted < 1 {
        1
    } else if wanted > MAX_FILE_SEARCH_LIMIT {
        MAX_FILE_SEARCH_LIMIT as int
    } else {
        wanted
    }
}

/// Clamps a requested result limit into `1..=MAX_FILE_SEARCH_LIMIT`,
/// taking `DEFAULT_FILE_SEARCH_LIMIT` when none is given.
pub fn clamp_search_limit(value: Option<usize>) -> (limit: usize)
    ensures
        limit == clamped_limit(value),
        1 <= limit <= MAX_FILE_SEARCH_LIMIT,
{
    let wanted: usize = match value {
        Some(n) => n,
        None => DEFAULT_FILE_SEARCH_LIMIT,
    };
    if wanted < 1 {
        1
    } else if wanted > MAX_FILE_SEARCH_LIMIT {
        MAX_FILE_SEARCH_LIMIT
    } else {
        wanted
    }
}

/// How many candidates are gathered before ranking. A search with a
/// query gathers more than it returns, since the best may come late.
pub open spec fn collect_limit_for(match_all: bool, limit: int) -> int {
    if match_all {
        limit
    } else if limit * 3 > 200 {
        limit * 3
    } else {
        200
    }
}

/// The names of directories that are never searched.
pub open spec fn excluded_directories() -> Seq<Seq<char>> {
    seq![
        "node_modules"@,
        ".git"@,
        "dist"@,
        "build"@,
        ".next"@,
        ".turbo"@,
        ".cache"@,
        "coverage"@,
        "tmp"@,
        "logs"@,
    ]
}

/// `c` with an ASCII capital replaced by its small letter.
pub open spec fn ascii_lowercase(c: char) -> char {
    if 'A' <= c <= 'Z' {
        ((c as u8) + 32) as char
    } else {
        c
    }
}

/// Whether two names are the same but for the case of ASCII letters.
pub open spec fn same_ignoring_ascii_case(a: Seq<char>, b: Seq<char>) -> bool {
    &&& a.len() == b.len()
    &&& forall|i: int| 0 <= i < a.len() ==> ascii_lowercase(a[i]) == ascii_lowercase(b[i])
}

/// Whether `name` is one of the excluded directory names, in any case.
pub open spec fn is_excluded_name(name: Seq<char>) -> bool {
    exists|i: int|
        0 <= i < excluded_directories().len() && same_ignoring_ascii_case(
            #[trigger] excluded_directories()[i],
            name,
        )
}

/// Whether a search that leaves hidden entries out passes over the
/// directory `name`: it is hidden, or excluded.
pub open spec fn skips_directory(name: Seq<char>) -> bool {
    is_hidden(name) || is_excluded_name(name)
}

/// Replaces an ASCII capital by its small letter.
pub fn to_ascii_lowercase(c: char) -> (out: char)
    ensures
        out == ascii_lowercase(c),
{
    if 'A' <= c && c <= 'Z' {
        ((c as u8) + 32) as char
    } else {
        c
    }
}

/// Compares two names without regard to the case of ASCII letters.
pub fn eq_ignore_ascii_case(a: &[char], b: &[char]) -> (same: bool)
    ensures
        same == same_ignoring_ascii_case(a@, b@),
{
    if a.len() != b.len() {
        return false;
    }
    let mut i: usize = 0;
    while i < a.len()
        invariant
            i <= a.len(),
            a.len() == b.len(),
            forall|j: int| 0 <= j < i ==> ascii_lowercase(a@[j]) == ascii_lowercase(b@[j]),
        decreases a.len() - i,
    {
        if to_ascii_lowercase(a[i]) != to_ascii_lowercase(b[i]) {
            return false;
        }
        i += 1;
    }
    true
}

/// Tests a name against the excluded directory names.
pub fn name_is_excluded(name: &[char]) -> (b: bool)
    ensures
        b == is_excluded_name(name@),
{
    let names: [&str; 10] = [
        "node_modules",
        ".git",
        "dist",
        "build",
        ".next",
        ".turbo",
        ".cache",
        "coverage",
        "tmp",
        "logs",
    ];
    assert(forall|k: int| 0 <= k < 10 ==> names@[k]@ == #[trigger] excluded_directories()[k]);
    let mut i: usize = 0;
    while i < 10
        invariant
            i <= 10,
            names@.len() == 10,
            forall|k: int| 0 <= k < 10 ==> names@[k]@ == #[trigger] excluded_directories()[k],
            forall|k: int|
                0 <= k < i ==> !same_ignoring_ascii_case(
                    #[trigger] excluded_directories()[k],
                    name@,
                ),
        decreases 10 - i,
    {
        let listed = chars_of(names[i]);
        if eq_ignore_ascii_case(listed.as_slice(), name) {
            assert(same_ignoring_ascii_case(excluded_directories()[i as int], name@));
            return true;
        }
        i += 1;
    }
    false
}

/// Whether a search that leaves hidden entries out passes over the
/// directory `name`.
pub fn should_skip_directory(name: &str) -> (skip: bool)
    ensures
        skip == skips_directory(name@),
{
    let chars = chars_of(name);
    name_is_hidden(chars.as_slice()) || name_is_excluded(chars.as_slice())
}

/// What kind of entry a directory holds. A symbolic link is `Other`,
/// whatever it points to: the search does not follow links.
#[derive(Debug, Clone, Copy, PartialEq, Eq)]
pub enum EntryKind {
    Directory,
    File,
    Other,
}

/// One entry of a directory that was read.
#[derive(Debug, Clone, PartialEq, Eq)]
pub struct TreeEntry {
    pub name: String,
    pub kind: EntryKind,
}

/// An entry as plain values.
pub struct EntryView {
    pub name: Seq<char>,
    pub kind: EntryKind,
}

impl View for TreeEntry {
    type V = EntryView;

    open spec fn view(&self) -> EntryView {
        EntryView { name: self.name@, kind: self.kind }
    }
}

/// The entries of a directory as plain values.
pub open spec fn entry_views(entries: Seq<TreeEntry>) -> Seq<EntryView> {
    Seq::new(entries.len(), |i: int| entries[i]@)
}

/// The hit for the file `name` in directory `dir`, in a search from `root`.
pub open spec fn hit_for(root: Seq<char>, dir: Seq<char>, name: Seq<char>) -> HitView {
    let path = joined(dir, name);
    HitView {
        name,
        path: normalized(path),
        relative_path: relative_to(root, path),
        extension: match extension_of(name) {
            Some(text) => Some(lowercase(text)),
            None => None,
        },
    }
}

/// The state of a search, as plain values.
pub struct SearchView {
    /// The directory searched.
    pub root: Seq<char>,
    /// The query, trimmed and in lowercase. Empty: every file matches.
    pub query: Seq<char>,
    /// How many files to return at most.
    pub limit: int,
    /// How many candidates to gather at most.
    pub collect_limit: int,
    /// Whether hidden entries are searched too.
    pub include_hidden: bool,
    /// Whether entries that version control ignores are left out.
    pub respect_gitignore: bool,
    /// The directories still to read, next first.
    pub queue: Seq<Seq<char>>,
    /// Every directory that ever entered the queue.
    pub visited: Set<Seq<char>>,
    /// The candidates, in the order in which they were found.
    pub candidates: Seq<CandidateView>,
}

impl SearchView {
    /// What holds of every state of a search: the limits are those of
    /// the request, no more candidates are in than are gathered at most,
    /// and every directory in the queue was seen, and stands there once.
    pub open spec fn wf(self) -> bool {
        &&& 1 <= self.limit <= MAX_FILE_SEARCH_LIMIT
        &&& self.collect_limit == collect_limit_for(self.match_all(), self.limit)
        &&& self.candidates.len() <= self.collect_limit
        &&& forall|i: int|
            0 <= i < self.queue.len() ==> self.visited.contains(#[trigger] self.queue[i])
        &&& self.queue.no_duplicates()
    }

    /// Whether every file matches.
    pub open spec fn match_all(self) -> bool {
        self.query.len() == 0
    }

    /// Whether more candidates are still wanted.
    pub open spec fn collecting(self) -> bool {
        self.candidates.len() < self.collect_limit
    }

    /// Whether nothing is left to do but to rank.
    pub open spec fn finished(self) -> bool {
        !self.collecting() || self.queue.len() == 0
    }

    /// Whether an entry is looked at at all: it has a name, is not
    /// hidden unless hidden entries are asked for, and is not ignored
    /// where that matters.
    pub open spec fn retains(self, name: Seq<char>, ignored: Set<Seq<char>>) -> bool {
        &&& name.len() > 0
        &&& self.include_hidden || !is_hidden(name)
        &&& !(self.respect_gitignore && ignored.contains(name))
    }

    /// The candidate that the file `name` in `dir` makes, if it matches.
    pub open spec fn candidate_for(self, dir: Seq<char>, name: Seq<char>) -> Option<
        CandidateView,
    > {
        let hit = hit_for(self.root, dir, name);
        if self.match_all() {
            Some(CandidateView { hit, score: 0 })
        } else {
            match fuzzy_match(self.query, hit.relative_path) {
                Some(score) => Some(CandidateView { hit, score }),
                None => None,
            }
        }
    }

    /// The state after one entry of directory `dir` was looked at.
    ///
    /// Once enough candidates are in, nothing changes any more. A
    /// directory joins the queue unless its name is excluded or it was
    /// seen before. A file joins the candidates if it matches.
    pub open spec fn take_entry(
        self,
        dir: Seq<char>,
        entry: EntryView,
        ignored: Set<Seq<char>>,
    ) -> SearchView {
        if !self.collecting() || !self.retains(entry.name, ignored) {
            self
        } else {
            match entry.kind {
                EntryKind::Directory => {
                    let path = joined(dir, entry.name);
                    if is_excluded_name(entry.name) || self.visited.contains(path) {
                        self
                    } else {
                        SearchView {
                            queue: self.queue.push(path),
                            visited: self.visited.insert(path),
                            ..self
                        }
                    }
                },
                EntryKind::File => match self.candidate_for(dir, entry.name) {
                    Some(found) => SearchView { candidates: self.candidates.push(found), ..self },
                    None => self,
                },
                EntryKind::Other => self,
            }
        }
    }

    /// The state after the entries of directory `dir` were looked at,
    /// one after another.
    pub open spec fn take_entries(
        self,
        dir: Seq<char>,
        entries: Seq<EntryView>,
        ignored: Set<Seq<char>>,
    ) -> SearchView
        decreases entries.len(),
    {
        if entries.len() == 0 {
            self
        } else {
            self.take_entries(dir, entries.drop_last(), ignored).take_entry(
                dir,
                entries.last(),
                ignored,
            )
        }
    }

    /// How many directories are handed out next.
    pub open spec fn batch_len(self) -> int {
        if !self.collecting() {
            0
        } else if self.queue.len() < FILE_SEARCH_MAX_CONCURRENCY {
            self.queue.len() as int
        } else {
            FILE_SEARCH_MAX_CONCURRENCY as int
        }
    }

    /// The candidates in the order in which they are returned: as found
    /// where every file matches, else by rank.
    pub open spec fn ordered(self) -> Seq<CandidateView> {
        if self.match_all() {
            self.candidates
        } else {
            ranked(self.candidates)
        }
    }

    /// The files returned: the first `limit` in order.
    pub open spec fn results(self) -> Seq<HitView> {
        let all = hits_of(self.ordered());
        if all.len() <= self.limit {
            all
        } else {
            all.take(self.limit)
        }
    }
}

/// The state in which a search begins.
pub open spec fn initial_search(
    root: Seq<char>,
    query: Option<Seq<char>>,
    max_results: Option<usize>,
    include_hidden: bool,
    respect_gitignore: bool,
) -> SearchView {
    let wanted = lowercase(
        trimmed(
            match query {
                Some(text) => text,
                None => Seq::empty(),
            },
        ),
    );
    SearchView {
        root,
        query: wanted,
        limit: clamped_limit(max_results),
        collect_limit: collect_limit_for(wanted.len() == 0, clamped_limit(max_results)),
        include_hidden,
        respect_gitignore,
        queue: seq![root],
        visited: set![root],
        candidates: Seq::empty(),
    }
}

/// Whether `later` is a state that `earlier` can grow into: the same
/// search, with nothing taken from the back of the queue or from the
/// candidates, and nothing forgotten.
pub open spec fn grows_into(earlier: SearchView, later: SearchView) -> bool {
    &&& later.root == earlier.root
    &&& later.query == earlier.query
    &&& later.limit == earlier.limit
    &&& later.collect_limit == earlier.collect_limit
    &&& later.include_hidden == earlier.include_hidden
    &&& later.respect_gitignore == earlier.respect_gitignore
    &&& earlier.queue.is_prefix_of(later.queue)
    &&& earlier.candidates.is_prefix_of(later.candidates)
    &&& earlier.visited.subset_of(later.visited)
}

/// Looking at an entry changes nothing but the back of the queue, the
/// back of the candidates and the set of directories seen; and it keeps
/// the state well formed.
pub proof fn lemma_take_entry_grows(
    v: SearchView,
    dir: Seq<char>,
    entry: EntryView,
    ignored: Set<Seq<char>>,
)
    ensures
        grows_into(v, v.take_entry(dir, entry, ignored)),
        v.wf() ==> v.take_entry(dir, entry, ignored).wf(),
{
    let w = v.take_entry(dir, entry, ignored);
    assert(v.queue =~= w.queue.subrange(0, v.queue.len() as int));
    assert(v.candidates =~= w.candidates.subrange(0, v.candidates.len() as int));
}

/// Reporting a directory changes nothing but the back of the queue, the
/// back of the candidates and the set of directories seen: what was
/// found earlier stays ahead of what is found later. The state stays
/// well formed; in particular the candidates never exceed the
/// collection limit, and no directory is queued twice.
pub proof fn lemma_take_entries_grows(
    v: SearchView,
    dir: Seq<char>,
    entries: Seq<EntryView>,
    ignored: Set<Seq<char>>,
)
    ensures
        grows_into(v, v.take_entries(dir, entries, ignored)),
        v.wf() ==> v.take_entries(dir, entries, ignored).wf(),
    decreases entries.len(),
{
    if entries.len() > 0 {
        let mid = v.take_entries(dir, entries.drop_last(), ignored);
        let w = mid.take_entry(dir, entries.last(), ignored);
        lemma_take_entries_grows(v, dir, entries.drop_last(), ignored);
        lemma_take_entry_grows(mid, dir, entries.last(), ignored);
        assert(v.queue =~= w.queue.subrange(0, v.queue.len() as int));
        assert(v.candidates =~= w.candidates.subrange(0, v.candidates.len() as int));
    } else {
        assert(v.queue =~= v.queue.subrange(0, v.queue.len() as int));
        assert(v.candidates =~= v.candidates.subrange(0, v.candidates.len() as int));
    }
}

/// Whether entry `entry` of directory `dir` is a directory that the
/// search may enter, and `path` is where it stands.
pub open spec fn admits_directory(
    v: SearchView,
    dir: Seq<char>,
    entry: EntryView,
    ignored: Set<Seq<char>>,
    path: Seq<char>,
) -> bool {
    &&& entry.kind == EntryKind::Directory
    &&& v.retains(entry.name, ignored)
    &&& !is_excluded_name(entry.name)
    &&& path == joined(dir, entry.name)
}

/// Whether entry `entry` of directory `dir` is a file that the search
/// may return, and `found` is the candidate it makes.
pub open spec fn admits_file(
    v: SearchView,
    dir: Seq<char>,
    entry: EntryView,
    ignored: Set<Seq<char>>,
    found: CandidateView,
) -> bool {
    &&& entry.kind == EntryKind::File
    &&& v.retains(entry.name, ignored)
    &&& v.candidate_for(dir, entry.name) == Some(found)
}

/// A directory enters the queue only as an entry that is a directory,
/// is retained, and has no excluded name. So a directory with an
/// excluded name is never read, whether or not hidden entries are
/// searched, and nothing below it is found.
pub proof fn lemma_queued_directories_are_admitted(
    v: SearchView,
    dir: Seq<char>,
    entries: Seq<EntryView>,
    ignored: Set<Seq<char>>,
    k: int,
)
    requires
        v.queue.len() <= k < v.take_entries(dir, entries, ignored).queue.len(),
    ensures
        exists|i: int|
            0 <= i < entries.len() && admits_directory(
                v,
                dir,
                #[trigger] entries[i],
                ignored,
                v.take_entries(dir, entries, ignored).queue[k],
            ),
    decreases entries.len(),
{
    if entries.len() > 0 {
        let front = entries.drop_last();
        let mid = v.take_entries(dir, front, ignored);
        let w = mid.take_entry(dir, entries.last(), ignored);
        lemma_take_entries_grows(v, dir, front, ignored);
        if k < mid.queue.len() {
            lemma_queued_directories_are_admitted(v, dir, front, ignored, k);
            let i = choose|i: int|
                0 <= i < front.len() && admits_directory(
                    v,
                    dir,
                    #[trigger] front[i],
                    ignored,
                    mid.queue[k],
                );
            assert(entries[i] == front[i]);
            assert(w.queue[k] == mid.queue[k]);
        } else {
            let i = entries.len() - 1;
            assert(admits_directory(v, dir, entries[i], ignored, w.queue[k]));
        }
    }
}

/// A candidate is only ever made of an entry that is a file and is
/// retained: directories are not returned.
pub proof fn lemma_candidates_are_admitted(
    v: SearchView,
    dir: Seq<char>,
    entries: Seq<EntryView>,
    ignored: Set<Seq<char>>,
    k: int,
)
    requires
        v.candidates.len() <= k < v.take_entries(dir, entries, ignored).candidates.len(),
    ensures
        exists|i: int|
            0 <= i < entries.len() && admits_file(
                v,
                dir,
                #[trigger] entries[i],
                ignored,
                v.take_entries(dir, entries, ignored).candidates[k],
            ),
    decreases entries.len(),
{
    if entries.len() > 0 {
        let front = entries.drop_last();
        let mid = v.take_entries(dir, front, ignored);
        let w = mid.take_entry(dir, entries.last(), ignored);
        lemma_take_entries_grows(v, dir, front, ignored);
        if k < mid.candidates.len() {
            lemma_candidates_are_admitted(v, dir, front, ignored, k);
            let i = choose|i: int|
                0 <= i < front.len() && admits_file(
                    v,
                    dir,
                    #[trigger] front[i],
                    ignored,
                    mid.candidates[k],
                );
            assert(entries[i] == front[i]);
            assert(w.candidates[k] == mid.candidates[k]);
        } else {
            let i = entries.len() - 1;
            assert(admits_file(v, dir, entries[i], ignored, w.candidates[k]));
        }
    }
}

/// A search begins well formed.
pub proof fn lemma_initial_search_wf(
    root: Seq<char>,
    query: Option<Seq<char>>,
    max_results: Option<usize>,
    include_hidden: bool,
    respect_gitignore: bool,
)
    ensures
        initial_search(root, query, max_results, include_hidden, respect_gitignore).wf(),
{
}

/// Handing out directories keeps the state well formed.
pub proof fn lemma_batch_keeps_wf(v: SearchView)
    requires
        v.wf(),
    ensures
        (SearchView { queue: v.queue.skip(v.batch_len()), ..v }).wf(),
{
    let rest = v.queue.skip(v.batch_len());
    assert forall|i: int, j: int|
        0 <= i < rest.len() && 0 <= j < rest.len() && i != j implies rest[i] != rest[j] by {
        assert(rest[i] == v.queue[i + v.batch_len()]);
        assert(rest[j] == v.queue[j + v.batch_len()]);
    }
}

/// Whether every directory in the queue lies within the search root.
pub open spec fn reads_within_root(v: SearchView) -> bool {
    forall|i: int| 0 <= i < v.queue.len() ==> is_within(#[trigger] v.queue[i], v.root)
}

/// A search begins with its root alone in the queue.
pub proof fn lemma_initial_search_reads_within_root(
    root: Seq<char>,
    query: Option<Seq<char>>,
    max_results: Option<usize>,
    include_hidden: bool,
    respect_gitignore: bool,
)
    ensures
        reads_within_root(
            initial_search(root, query, max_results, include_hidden, respect_gitignore),
        ),
{
    lemma_within_reflexive(root);
}

/// The search never leaves its root: if every queued directory lies
/// within the root, and the one reported does, then so does every
/// directory queued for it, as long as the entries are named relative
/// to it.
pub proof fn lemma_search_stays_within_root(
    v: SearchView,
    dir: Seq<char>,
    entries: Seq<EntryView>,
    ignored: Set<Seq<char>>,
)
    requires
        reads_within_root(v),
        is_within(dir, v.root),
        forall|i: int| 0 <= i < entries.len() ==> !is_absolute(#[trigger] entries[i].name),
    ensures
        reads_within_root(v.take_entries(dir, entries, ignored)),
{
    let w = v.take_entries(dir, entries, ignored);
    lemma_take_entries_grows(v, dir, entries, ignored);
    assert forall|k: int| 0 <= k < w.queue.len() implies is_within(
        #[trigger] w.queue[k],
        w.root,
    ) by {
        if k < v.queue.len() {
            assert(w.queue[k] == v.queue.subrange(0, v.queue.len() as int)[k]);
            assert(w.queue[k] == v.queue[k]);
        } else {
            lemma_queued_directories_are_admitted(v, dir, entries, ignored, k);
            let i = choose|i: int|
                0 <= i < entries.len() && admits_directory(
                    v,
                    dir,
                    #[trigger] entries[i],
                    ignored,
                    w.queue[k],
                );
            lemma_joined_is_within(dir, entries[i].name);
            lemma_within_transitive(w.queue[k], dir, v.root);
        }
    }
}

/// A directory with an excluded name changes nothing: it is neither
/// queued nor returned, whether or not hidden entries are searched, and
/// whatever version control says of it.
pub proof fn lemma_excluded_directory_is_passed_over(
    v: SearchView,
    dir: Seq<char>,
    entry: EntryView,
    ignored: Set<Seq<char>>,
)
    requires
        entry.kind == EntryKind::Directory,
        is_excluded_name(entry.name),
    ensures
        v.take_entry(dir, entry, ignored) == v,
{
}

/// No directory is ever returned: an entry that is a directory leaves
/// the candidates as they are.
pub proof fn lemma_directories_are_not_returned(
    v: SearchView,
    dir: Seq<char>,
    entry: EntryView,
    ignored: Set<Seq<char>>,
)
    requires
        entry.kind == EntryKind::Directory,
    ensures
        v.take_entry(dir, entry, ignored).candidates == v.candidates,
{
}

/// A hidden entry changes nothing unless hidden entries are searched.
pub proof fn lemma_hidden_entries_are_passed_over(
    v: SearchView,
    dir: Seq<char>,
    entry: EntryView,
    ignored: Set<Seq<char>>,
)
    requires
        is_hidden(entry.name),
        !v.include_hidden,
    ensures
        v.take_entry(dir, entry, ignored) == v,
{
}

/// An ignored entry changes nothing where the search respects that.
pub proof fn lemma_ignored_entries_are_passed_over(
    v: SearchView,
    dir: Seq<char>,
    entry: EntryView,
    ignored: Set<Seq<char>>,
)
    requires
        ignored.contains(entry.name),
        v.respect_gitignore,
    ensures
        v.take_entry(dir, entry, ignored) == v,
{
}

/// Every listed name is excluded as it is written.
pub proof fn lemma_listed_names_are_excluded(i: int)
    requires
        0 <= i < excluded_directories().len(),
    ensures
        is_excluded_name(excluded_directories()[i]),
        skips_directory(excluded_directories()[i]),
{
    assert(same_ignoring_ascii_case(excluded_directories()[i], excluded_directories()[i]));
}

/// Where every file matches, the files come back in the order in which
/// they were found, whatever their scores: the first `limit` of them.
pub proof fn lemma_match_all_keeps_order(v: SearchView)
    requires
        v.match_all(),
        v.limit >= 0,
    ensures
        v.results().len() <= v.candidates.len(),
        forall|i: int|
            0 <= i < v.results().len() ==> #[trigger] v.results()[i] == v.candidates[i].hit,
{
}

/// A search returns no more files than its limit, and no more than it
/// found.
pub proof fn lemma_results_are_bounded(v: SearchView)
    requires
        v.limit >= 0,
    ensures
        v.results().len() <= v.limit,
        v.results().len() <= v.candidates.len(),
        v.results().len() == v.candidates.len() || v.results().len() == v.limit,
{
    crate::ranking::lemma_ranked_is_permutation(v.candidates);
}

/// Builds the hit for the file `name` in directory `dir`.
pub fn make_hit(root: &[char], dir: &[char], name: &String) -> (hit: FileSearchHit)
    ensures
        hit@ == hit_for(root@, dir@, name@),
{
    let n = chars_of(name.as_str());
    let path = join_chars(dir, n.as_slice());
    let shown = normalize_chars(path.as_slice());
    let relative = relative_chars(root, path.as_slice());
    let extension = match extension_chars(n.as_slice()) {
        Some(text) => {
            let raw = string_of(text.as_slice());
            Some(to_lowercase(raw.as_str()))
        },
        None => None,
    };
    FileSearchHit {
        name: name.clone(),
        path: string_of(shown.as_slice()),
        relative_path: string_of(relative.as_slice()),
        extension,
    }
}

/// A file search in progress.
pub struct FileSearch {
    root: String,
    query: String,
    limit: usize,
    collect_limit: usize,
    include_hidden: bool,
    respect_gitignore: bool,
    queue: VecDeque<String>,
    visited: Vec<String>,
    candidates: Vec<ScoredFileHit>,
}

impl View for FileSearch {
    type V = SearchView;

    closed spec fn view(&self) -> SearchView {
        SearchView {
            root: self.root@,
            query: self.query@,
            limit: self.limit as int,
            collect_limit: self.collect_limit as int,
            include_hidden: self.include_hidden,
            respect_gitignore: self.respect_gitignore,
            queue: texts(self.queue@),
            visited: text_set(self.visited@),
            candidates: candidate_views(self.candidates@),
        }
    }
}

impl FileSearch {
    /// Begins a search of the directory `root`, which is a resolved path.
    ///
    /// The query is trimmed and put in lowercase; an absent or empty one
    /// matches every file. `max_results` is clamped by
    /// `clamp_search_limit`.
    pub fn new(
        root: &str,
        query: Option<&str>,
        max_results: Option<usize>,
        include_hidden: bool,
        respect_gitignore: bool,
    ) -> (search: FileSearch)
        ensures
            search@ == initial_search(
                root@,
                text_of(query),
                max_results,
                include_hidden,
                respect_gitignore,
            ),
            search@.wf(),
    {
        let limit = clamp_search_limit(max_results);
        let raw: Vec<char> = match query {
            Some(text) => chars_of(text),
            None => Vec::new(),
        };
        let kept = trim_chars(raw.as_slice());
        let kept_text = string_of(kept.as_slice());
        let wanted = to_lowercase(kept_text.as_str());
        let collect_limit: usize = if wanted.as_str().is_empty() {
            limit
        } else if limit * 3 > 200 {
            limit * 3
        } else {
            200
        };
        let mut queue: VecDeque<String> = VecDeque::new();
        queue.push_back(root.to_owned());
        let mut visited: Vec<String> = Vec::new();
        visited.push(root.to_owned());
        let search = FileSearch {
            root: root.to_owned(),
            query: wanted,
            limit,
            collect_limit,
            include_hidden,
            respect_gitignore,
            queue,
            visited,
            candidates: Vec::new(),
        };
        proof {
            let goal = initial_search(
                root@,
                text_of(query),
                max_results,
                include_hidden,
                respect_gitignore,
            );
            assert(search@.queue =~= goal.queue);
            assert(search@.visited =~= goal.visited) by {
                assert(search.visited@[0]@ == root@);
            }
            assert(search@.candidates =~= goal.candidates);
        }
        search
    }

    /// Whether the search has nothing left to read, or has enough.
    pub fn is_finished(&self) -> (done: bool)
        ensures
            done == self@.finished(),
    {
        self.candidates.len() >= self.collect_limit || self.queue.len() == 0
    }

    /// How many candidates are in so far.
    pub fn candidate_count(&self) -> (count: usize)
        ensures
            count == self@.candidates.len(),
    {
        self.candidates.len()
    }

    /// Hands out the directories to read next: the first of the queue,
    /// up to `FILE_SEARCH_MAX_CONCURRENCY` of them, and none once enough
    /// candidates are in. They leave the queue. The caller reads each
    /// and reports what it holds with `visit`, in the order given here;
    /// one that cannot be read is passed over.
    pub fn next_batch(&mut self) -> (batch: Vec<String>)
        ensures
            texts(batch@) == old(self)@.queue.take(old(self)@.batch_len()),
            final(self)@ == (SearchView {
                queue: old(self)@.queue.skip(old(self)@.batch_len()),
                ..old(self)@
            }),
            old(self)@.wf() ==> final(self)@.wf(),
    {
        proof {
            if self@.wf() {
                lemma_batch_keeps_wf(self@);
            }
        }
        let mut batch: Vec<String> = Vec::new();
        if self.candidates.len() >= self.collect_limit {
            assert(texts(batch@) =~= old(self)@.queue.take(0));
            assert(self@.queue =~= old(self)@.queue.skip(0));
            return batch;
        }
        let ghost start = self@;
        assert(start.queue.skip(0) =~= start.queue);
        assert(texts(batch@) =~= start.queue.take(0));
        while batch.len() < FILE_SEARCH_MAX_CONCURRENCY && self.queue.len() > 0
            invariant
                batch.len() <= FILE_SEARCH_MAX_CONCURRENCY,
                batch.len() + self.queue@.len() == start.queue.len(),
                start.collecting(),
                texts(batch@) == start.queue.take(batch.len() as int),
                self@ == (SearchView { queue: start.queue.skip(batch.len() as int), ..start }),
            decreases self.queue.len(),
        {
            let ghost taken = texts(batch@);
            let ghost waiting = self.queue@;
            let ghost n = batch.len() as int;
            assert(texts(waiting) == start.queue.skip(n));
            match self.queue.pop_front() {
                Some(dir) => {
                    batch.push(dir);
                    assert(dir@ == texts(waiting)[0]);
                    assert(texts(batch@) =~= taken.push(dir@));
                    assert(texts(self.queue@) =~= texts(waiting).skip(1));
                    assert(taken.push(start.queue[n]) =~= start.queue.take(n + 1));
                    assert(start.queue.skip(n).skip(1) =~= start.queue.skip(n + 1));
                },
                None => {},
            }
        }
        batch
    }

    /// Abandons the directories not yet read. Nothing more is handed
    /// out; what was found so far can still be had from `finish`. A
    /// caller checks between rounds whether its request still stands,
    /// and calls this if it does not.
    pub fn cancel(&mut self)
        ensures
            final(self)@ == (SearchView { queue: Seq::empty(), ..old(self)@ }),
            final(self)@.finished(),
            old(self)@.wf() ==> final(self)@.wf(),
    {
        self.queue.clear();
        assert(texts(self.queue@) =~= Seq::<Seq<char>>::empty());
    }

    /// Looks at one entry of directory `dir`.
    fn take(&mut self, dir: &[char], entry: &TreeEntry, ignored: &Vec<String>)
        ensures
            final(self)@ == old(self)@.take_entry(dir@, entry@, text_set(ignored@)),
    {
        if self.candidates.len() >= self.collect_limit {
            return ;
        }
        let name = chars_of(entry.name.as_str());
        if name.len() == 0 {
            return ;
        }
        if !self.include_hidden && name_is_hidden(name.as_slice()) {
            return ;
        }
        if self.respect_gitignore && holds_text(ignored, &entry.name) {
            return ;
        }
        match entry.kind {
            EntryKind::Directory => {
                if name_is_excluded(name.as_slice()) {
                    return ;
                }
                let joined_path = join_chars(dir, name.as_slice());
                let path = string_of(joined_path.as_slice());
                if holds_text(&self.visited, &path) {
                    return ;
                }
                let ghost seen = self.visited@;
                let ghost waiting = self.queue@;
                self.visited.push(path.clone());
                self.queue.push_back(path);
                proof {
                    assert(texts(self.queue@) =~= texts(waiting).push(path@));
                    assert(text_set(self.visited@) =~= text_set(seen).insert(path@)) by {
                        assert forall|text: Seq<char>|
                            text_set(seen).insert(path@).contains(text) implies text_set(
                            self.visited@,
                        ).contains(text) by {
                            if text == path@ {
                                assert(self.visited@[seen.len() as int]@ == text);
                            } else {
                                let i = choose|i: int| 0 <= i < seen.len() && seen[i]@ == text;
                                assert(self.visited@[i]@ == text);
                            }
                        }
                    }
                }
            },
            EntryKind::File => {
                let root = chars_of(self.root.as_str());
                let hit = make_hit(root.as_slice(), dir, &entry.name);
                let score: Option<i128> = if self.query.as_str().is_empty() {
                    Some(0)
                } else {
                    fuzzy_match_score(self.query.as_str(), hit.relative_path.as_str())
                };
                match score {
                    Some(value) => {
                        let ghost found = candidate_views(self.candidates@);
                        let scored = ScoredFileHit { hit, score: value };
                        self.candidates.push(scored);
                        assert(candidate_views(self.candidates@) =~= found.push(scored@));
                    },
                    None => {},
                }
            },
            EntryKind::Other => {},
        }
    }

    /// Reports what the directory `dir` holds, in the order in which it
    /// was read. `ignored` names the entries of `dir` that version
    /// control ignores; it is consulted only by a search that respects
    /// that, and an empty list ignores nothing.
    pub fn visit(&mut self, dir: &str, entries: &Vec<TreeEntry>, ignored: &Vec<String>)
        ensures
            final(self)@ == old(self)@.take_entries(
                dir@,
                entry_views(entries@),
                text_set(ignored@),
            ),
            old(self)@.wf() ==> final(self)@.wf(),
    {
        proof {
            lemma_take_entries_grows(self@, dir@, entry_views(entries@), text_set(ignored@));
        }
        let d = chars_of(dir);
        let ghost start = self@;
        let ghost all = entry_views(entries@);
        let mut i: usize = 0;
        while i < entries.len()
            invariant
                i <= entries.len(),
                d@ == dir@,
                all == entry_views(entries@),
                self@ == start.take_entries(dir@, all.take(i as int), text_set(ignored@)),
            decreases entries.len() - i,
        {
            proof {
                assert(all.take(i + 1).drop_last() == all.take(i as int));
                assert(all.take(i + 1).last() == entries@[i as int]@);
            }
            self.take(d.as_slice(), &entries[i], ignored);
            i += 1;
        }
        assert(all.take(all.len() as int) == all);
    }

    /// Ends the search and returns the best candidates: in the order in
    /// which they were found if every file matches, else by rank.
    pub fn finish(self) -> (response: SearchFilesResponse)
        ensures
            response.root@ == normalized(self@.root),
            hit_views(response.files@) == self@.results(),
            response.count == response.files@.len(),
    {
        let match_all = self.query.as_str().is_empty();
        let limit = self.limit;
        let root_chars = chars_of(self.root.as_str());
        let shown = normalize_chars(root_chars.as_slice());
        let ghost view = self@;
        let ordered: Vec<ScoredFileHit> = if match_all {
            self.candidates
        } else {
            rank(self.candidates)
        };
        assert(candidate_views(ordered@) == view.ordered());
        let mut files: Vec<FileSearchHit> = Vec::new();
        let mut i: usize = 0;
        while i < ordered.len() && i < limit
            invariant
                i <= ordered.len(),
                i <= limit,
                hit_views(files@) == hits_of(candidate_views(ordered@)).take(i as int),
                files@.len() == i,
            decreases ordered.len() - i,
        {
            let ghost before = hit_views(files@);
            files.push(ordered[i].hit.duplicate());
            assert(hit_views(files@) =~= before.push(ordered@[i as int]@.hit));
            assert(hit_views(files@) =~= hits_of(candidate_views(ordered@)).take(i + 1));
            i += 1;
        }
        proof {
            let all = hits_of(candidate_views(ordered@));
            if all.len() <= limit {
                assert(all.take(i as int) =~= all);
            }
        }
        SearchFilesResponse { root: string_of(shown.as_slice()), count: files.len(), files }
    }
}

} // verus!
