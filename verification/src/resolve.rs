//! Resolution of requested paths inside the workspace.
//!
//! A request names a path loosely: it may be absent, relative, or begin
//! with a tilde. Resolution makes it absolute, has the filesystem
//! canonicalize it, and then admits it only if it lies within a workspace
//! root. The check comes after canonicalization so that neither `..` nor a
//! symbolic link leads out of a root that the request seemed to stay in.
//!
//! Canonicalization is the caller's part. Each resolution is therefore two
//! calls: one that says which path to canonicalize, and one that judges
//! what the filesystem answered.

use vstd::prelude::*;
use vstd::std_specs::convert::FromSpec;
use crate::error::{FsCommandError, IoFailure};
use crate::paths::{
    is_absolute,
    is_within,
    joined,
    parent_of,
    tilde_expanded,
    expand_tilde_chars,
    join_chars,
    parent_chars,
    path_is_absolute,
    path_is_within,
};
use crate::text::{
    chars_of,
    is_whitespace,
    lemma_trimmed_concat,
    nonblank,
    string_of,
    text_of,
    trailing_whitespace,
    trim_chars,
    trimmed,
};

verus! {

/// The directories that file operations are confined to.
///
/// With no root at all nothing is confined. `fallback` is the directory
/// that relative requests start from when there is no root.
#[derive(Debug, Clone, PartialEq, Eq)]
pub struct WorkspaceRoots {
    pub roots: Vec<String>,
    pub fallback: Option<String>,
}

/// A path that may not exist yet, and the directory that has to.
#[derive(Debug, Clone, PartialEq, Eq)]
pub struct CreatablePath {
    /// The absolute path to create, not canonicalized.
    pub target: String,
    /// The directory to canonicalize and to check in its place.
    pub parent: String,
}

/// What planning the creation of a path comes to.
pub enum CreatablePlan {
    /// The path can be created at `target` once `parent` is confirmed.
    At { target: Seq<char>, parent: Seq<char> },
    /// No path was given.
    Missing,
    /// The path has nothing above it.
    Rootless,
}

/// Whether every root, and the fallback if there is one, is absolute.
pub open spec fn all_absolute(roots: Seq<String>, fallback: Option<String>) -> bool {
    &&& forall|i: int| 0 <= i < roots.len() ==> is_absolute(#[trigger] roots[i]@)
    &&& fallback matches Some(dir) ==> is_absolute(dir@)
}

impl WorkspaceRoots {
    /// Every root, and the fallback if there is one, is an absolute path.
    pub open spec fn wf(&self) -> bool {
        all_absolute(self.roots@, self.fallback)
    }

    /// Whether operations on `path` are allowed: anywhere if there is no
    /// root, else within at least one.
    pub open spec fn permits(&self, path: Seq<char>) -> bool {
        self.roots@.len() == 0 || exists|i: int|
            0 <= i < self.roots@.len() && is_within(path, #[trigger] self.roots@[i]@)
    }

    /// The directory that relative requests start from: the first root,
    /// else the fallback, else `home`.
    pub open spec fn default_root(&self, home: Seq<char>) -> Seq<char> {
        if self.roots@.len() > 0 {
            self.roots@[0]@
        } else {
            match self.fallback {
                Some(dir) => dir@,
                None => home,
            }
        }
    }

    /// The path to canonicalize for a request: the default root for an
    /// empty one; otherwise the request with its tilde expanded, taken
    /// from the default root unless it is absolute.
    pub open spec fn sandbox_candidate(&self, path: Option<Seq<char>>, home: Seq<char>) -> Seq<
        char,
    > {
        let wanted = match nonblank(path) {
            Some(text) => tilde_expanded(text, home),
            None => self.default_root(home),
        };
        if is_absolute(wanted) {
            wanted
        } else {
            joined(self.default_root(home), wanted)
        }
    }

    /// The absolute form of a path that is to be created: its tilde
    /// expanded, taken from the default root unless it is absolute.
    pub open spec fn creatable_target(&self, path: Seq<char>, home: Seq<char>) -> Seq<char> {
        let wanted = tilde_expanded(path, home);
        if is_absolute(wanted) {
            wanted
        } else {
            joined(self.default_root(home), wanted)
        }
    }

    /// The judgement on a path that must exist, given what canonicalizing
    /// it gave: a failure of the filesystem is passed on; a canonical
    /// path is admitted if the roots permit it and refused if not.
    pub open spec fn sandbox_verdict(&self, canonical: Result<String, IoFailure>) -> Result<
        String,
        FsCommandError,
    > {
        match canonical {
            Ok(path) => if self.permits(path@) {
                Ok(path)
            } else {
                Err(FsCommandError::OutsideWorkspace)
            },
            Err(failure) => Err(FsCommandError::from_spec(failure)),
        }
    }

    /// The judgement on a path that is to be created at `target`, given
    /// what canonicalizing its parent gave: a failure of the filesystem
    /// is passed on; the target is admitted if the roots permit the
    /// canonical parent and refused if not.
    pub open spec fn creation_verdict(
        &self,
        target: String,
        canonical_parent: Result<String, IoFailure>,
    ) -> Result<String, FsCommandError> {
        match canonical_parent {
            Ok(parent) => if self.permits(parent@) {
                Ok(target)
            } else {
                Err(FsCommandError::OutsideWorkspace)
            },
            Err(failure) => Err(FsCommandError::from_spec(failure)),
        }
    }

    /// What planning the creation of `path` comes to: an empty path is
    /// missing; a target with no directory above it is rootless.
    pub open spec fn creatable_plan(&self, path: Seq<char>, home: Seq<char>) -> CreatablePlan {
        if tilde_expanded(path, home).len() == 0 {
            CreatablePlan::Missing
        } else {
            let target = self.creatable_target(path, home);
            match parent_of(target) {
                Some(parent) => CreatablePlan::At { target, parent },
                None => CreatablePlan::Rootless,
            }
        }
    }

    /// Makes a set of roots, provided that all of them are absolute.
    pub fn new(roots: Vec<String>, fallback: Option<String>) -> (out: Option<WorkspaceRoots>)
        ensures
            match out {
                Some(made) => made.wf() && made.roots == roots && made.fallback == fallback,
                None => !all_absolute(roots@, fallback),
            },
    {
        let mut i: usize = 0;
        while i < roots.len()
            invariant
                i <= roots.len(),
                forall|j: int| 0 <= j < i ==> is_absolute(#[trigger] roots@[j]@),
            decreases roots.len() - i,
        {
            let chars = chars_of(roots[i].as_str());
            if !path_is_absolute(chars.as_slice()) {
                assert(!is_absolute(roots@[i as int]@));
                return None;
            }
            i += 1;
        }
        match &fallback {
            Some(dir) => {
                let chars = chars_of(dir.as_str());
                if !path_is_absolute(chars.as_slice()) {
                    return None;
                }
            },
            None => {},
        }
        Some(WorkspaceRoots { roots, fallback })
    }

    /// No root: nothing is confined.
    pub fn unscoped() -> (out: WorkspaceRoots)
        ensures
            out.wf(),
            out.roots@.len() == 0,
            out.fallback is None,
            forall|path: Seq<char>| out.permits(path),
    {
        WorkspaceRoots { roots: Vec::new(), fallback: None }
    }

    /// Decides whether operations on `path` are allowed.
    pub fn allows(&self, path: &str) -> (b: bool)
        ensures
            b == self.permits(path@),
    {
        if self.roots.len() == 0 {
            return true;
        }
        let chars = chars_of(path);
        let mut i: usize = 0;
        while i < self.roots.len()
            invariant
                i <= self.roots.len(),
                chars@ == path@,
                forall|j: int| 0 <= j < i ==> !is_within(path@, #[trigger] self.roots@[j]@),
            decreases self.roots.len() - i,
        {
            let root = chars_of(self.roots[i].as_str());
            if path_is_within(chars.as_slice(), root.as_slice()) {
                return true;
            }
            i += 1;
        }
        false
    }

    /// The directory that relative requests start from.
    pub fn base_directory(&self, home: &str) -> (dir: Vec<char>)
        ensures
            dir@ == self.default_root(home@),
    {
        if self.roots.len() > 0 {
            chars_of(self.roots[0].as_str())
        } else {
            match &self.fallback {
                Some(dir) => chars_of(dir.as_str()),
                None => chars_of(home),
            }
        }
    }

    /// Takes `wanted` from the default root unless it is absolute.
    fn anchor(&self, wanted: Vec<char>, home: &str) -> (out: Vec<char>)
        ensures
            out@ == if is_absolute(wanted@) {
                wanted@
            } else {
                joined(self.default_root(home@), wanted@)
            },
    {
        if path_is_absolute(wanted.as_slice()) {
            wanted
        } else {
            let base = self.base_directory(home);
            join_chars(base.as_slice(), wanted.as_slice())
        }
    }

    /// First half of resolving a path that must exist: says which path
    /// the filesystem is to canonicalize. `home` is the home directory
    /// that a tilde in the request stands for, and the last resort where
    /// there is neither root nor fallback.
    pub fn plan_sandboxed_path(&self, path: Option<&str>, home: &str) -> (candidate: String)
        ensures
            candidate@ == self.sandbox_candidate(text_of(path), home@),
            self.wf() && is_absolute(home@) ==> is_absolute(candidate@),
    {
        let wanted: Vec<char> = match path {
            Some(text) => {
                let raw = chars_of(text);
                let kept = trim_chars(raw.as_slice());
                if kept.len() > 0 {
                    let h = chars_of(home);
                    expand_tilde_chars(kept.as_slice(), h.as_slice())
                } else {
                    self.base_directory(home)
                }
            },
            None => self.base_directory(home),
        };
        let out = self.anchor(wanted, home);
        string_of(out.as_slice())
    }

    /// Second half of resolving a path that must exist: judges what
    /// canonicalizing the planned path gave. A failure of the filesystem
    /// is passed on. A canonical path is returned if the roots permit
    /// it, and refused as `OutsideWorkspace` if they do not.
    pub fn resolve_sandboxed_path(&self, canonical: Result<String, IoFailure>) -> (out: Result<
        String,
        FsCommandError,
    >)
        ensures
            out == self.sandbox_verdict(canonical),
    {
        match canonical {
            Ok(path) => {
                if self.allows(path.as_str()) {
                    Ok(path)
                } else {
                    Err(FsCommandError::OutsideWorkspace)
                }
            },
            Err(failure) => Err(FsCommandError::from(failure)),
        }
    }

    /// First half of resolving a path that is to be created: gives the
    /// absolute target and the directory that must already hold it.
    /// An empty path is refused, and so is one with nothing above it.
    pub fn plan_creatable_path(&self, path: &str, home: &str) -> (out: Result<
        CreatablePath,
        FsCommandError,
    >)
        ensures
            match out {
                Ok(plan) => self.creatable_plan(path@, home@) == (CreatablePlan::At {
                    target: plan.target@,
                    parent: plan.parent@,
                }),
                Err(FsCommandError::Other(detail)) => {
                    &&& self.creatable_plan(path@, home@) is Missing
                    &&& detail@ == "Path is required"@
                },
                Err(FsCommandError::NotDirectory) => self.creatable_plan(path@, home@) is Rootless,
                Err(_) => false,
            },
    {
        let p = chars_of(path);
        let h = chars_of(home);
        let wanted = expand_tilde_chars(p.as_slice(), h.as_slice());
        if wanted.len() == 0 {
            return Err(FsCommandError::Other("Path is required".to_owned()));
        }
        let target = self.anchor(wanted, home);
        match parent_chars(target.as_slice()) {
            Some(parent) => Ok(
                CreatablePath {
                    target: string_of(target.as_slice()),
                    parent: string_of(parent.as_slice()),
                },
            ),
            None => Err(FsCommandError::NotDirectory),
        }
    }

    /// Second half of resolving a path that is to be created: judges
    /// what canonicalizing the parent gave. Only the canonical parent
    /// decides; how the target is spelled does not. On success the
    /// target comes back as planned, for the caller to create.
    pub fn resolve_creatable_path(
        &self,
        plan: CreatablePath,
        canonical_parent: Result<String, IoFailure>,
    ) -> (out: Result<String, FsCommandError>)
        ensures
            out == self.creation_verdict(plan.target, canonical_parent),
    {
        match canonical_parent {
            Ok(parent) => {
                if self.allows(parent.as_str()) {
                    Ok(plan.target)
                } else {
                    Err(FsCommandError::OutsideWorkspace)
                }
            },
            Err(failure) => Err(FsCommandError::from(failure)),
        }
    }
}

/// A request that begins with a tilde names the same path as the
/// request that spells the home directory out: for a tail that begins
/// with a separator, `~tail` and `home` followed by `tail` are resolved
/// from one and the same candidate.
pub proof fn lemma_tilde_names_home(roots: WorkspaceRoots, home: Seq<char>, tail: Seq<char>)
    requires
        is_absolute(home),
        tail.len() > 0,
        tail[0] == '/',
    ensures
        roots.sandbox_candidate(Some(seq!['~'] + tail), home) == roots.sandbox_candidate(
            Some(home + tail),
            home,
        ),
        roots.sandbox_candidate(Some(seq!['~'] + tail), home) == home + tail.take(
            tail.len() - trailing_whitespace(tail),
        ),
{
    let kept = tail.take(tail.len() - trailing_whitespace(tail));
    let short = seq!['~'] + kept;
    let long = home + kept;
    assert(!is_whitespace('~'));
    assert(!is_whitespace('/'));
    lemma_trimmed_concat(seq!['~'], tail);
    lemma_trimmed_concat(home, tail);
    assert(kept[0] == '/');
    assert(short[1] == kept[0]);
    assert(crate::paths::name_end(short, 1) == 1);
    assert(short.skip(1) =~= kept);
    assert(tilde_expanded(short, home) == long);
    assert(long[0] == home[0]);
    assert(tilde_expanded(long, home) == long);
}

/// A canonical path is admitted exactly if there is no root or it lies
/// within one; any other is refused as outside the workspace, however
/// the request was spelled.
pub proof fn lemma_containment(roots: WorkspaceRoots, path: String)
    ensures
        roots.sandbox_verdict(Ok(path)) is Ok <==> roots.roots@.len() == 0 || exists|i: int|
            0 <= i < roots.roots@.len() && is_within(path@, #[trigger] roots.roots@[i]@),
        roots.sandbox_verdict(Ok(path)) is Ok ==> roots.sandbox_verdict(Ok(path)) == Ok::<
            String,
            FsCommandError,
        >(path),
        !(roots.sandbox_verdict(Ok(path)) is Ok) ==> roots.sandbox_verdict(Ok(path)) == Err::<
            String,
            FsCommandError,
        >(FsCommandError::OutsideWorkspace),
{
}

/// Whether a path may be created is decided by its canonical parent
/// alone. A parent outside every root refuses the target as outside the
/// workspace, however the target is spelled; and two targets judged by
/// the same parent are both admitted or both refused.
pub proof fn lemma_parent_decides(
    roots: WorkspaceRoots,
    parent: String,
    target: String,
    other: String,
)
    ensures
        !roots.permits(parent@) ==> roots.creation_verdict(target, Ok(parent)) == Err::<
            String,
            FsCommandError,
        >(FsCommandError::OutsideWorkspace),
        roots.permits(parent@) ==> roots.creation_verdict(target, Ok(parent)) == Ok::<
            String,
            FsCommandError,
        >(target),
        roots.creation_verdict(target, Ok(parent)) is Ok <==> roots.creation_verdict(
            other,
            Ok(parent),
        ) is Ok,
{
}

} // verus!
