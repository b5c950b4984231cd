//! What a file search finds.

use vstd::prelude::*;

verus! {

/// One file found by a search.
#[derive(Debug, Clone, PartialEq, Eq)]
pub struct FileSearchHit {
    /// The file's name.
    pub name: String,
    /// Its full path, with forward slashes.
    pub path: String,
    /// The way to it from the search root, with forward slashes.
    pub relative_path: String,
    /// Its extension in lowercase, if it has one.
    pub extension: Option<String>,
}

/// A hit with the score by which it is ranked.
#[derive(Debug, Clone, PartialEq, Eq)]
pub struct ScoredFileHit {
    pub hit: FileSearchHit,
    pub score: i128,
}

/// The answer to a file search.
#[derive(Debug, Clone, PartialEq, Eq)]
pub struct SearchFilesResponse {
    /// The directory that was searched, with forward slashes.
    pub root: String,
    /// The number of files returned.
    pub count: usize,
    /// The files, best first.
    pub files: Vec<FileSearchHit>,
}

/// A hit as plain text.
pub struct HitView {
    pub name: Seq<char>,
    pub path: Seq<char>,
    pub relative_path: Seq<char>,
    pub extension: Option<Seq<char>>,
}

/// A scored hit as plain values.
pub struct CandidateView {
    pub hit: HitView,
    pub score: int,
}

impl View for FileSearchHit {
    type V = HitView;

    open spec fn view(&self) -> HitView {
        HitView {
            name: self.name@,
            path: self.path@,
            relative_path: self.relative_path@,
            extension: match self.extension {
                Some(text) => Some(text@),
                None => None,
            },
        }
    }
}

impl View for ScoredFileHit {
    type V = CandidateView;

    open spec fn view(&self) -> CandidateView {
        CandidateView { hit: self.hit@, score: self.score as int }
    }
}

/// The hits of a sequence of files.
pub open spec fn hit_views(files: Seq<FileSearchHit>) -> Seq<HitView> {
    Seq::new(files.len(), |i: int| files[i]@)
}

/// The candidates of a sequence of scored hits.
pub open spec fn candidate_views(scored: Seq<ScoredFileHit>) -> Seq<CandidateView> {
    Seq::new(scored.len(), |i: int| scored[i]@)
}

/// The hits of a sequence of candidates, scores left out.
pub open spec fn hits_of(candidates: Seq<CandidateView>) -> Seq<HitView> {
    Seq::new(candidates.len(), |i: int| candidates[i].hit)
}

impl FileSearchHit {
    /// A copy of this hit.
    pub fn duplicate(&self) -> (copy: FileSearchHit)
        ensures
            copy@ == self@,
    {
        FileSearchHit {
            name: self.name.clone(),
            path: self.path.clone(),
            relative_path: self.relative_path.clone(),
            extension: match &self.extension {
                Some(text) => Some(text.clone()),
                None => None,
            },
        }
    }
}

} // verus!
