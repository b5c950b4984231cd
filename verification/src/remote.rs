//! Which GitHub repository a git remote points to.
//!
//! Three spellings are understood: `git@github.com:owner/repo`,
//! `ssh://git@github.com/owner/repo`, and any URL whose host is
//! `github.com`. A trailing `.git` does not count.

use vstd::prelude::*;
use crate::github::GitHubRepoRef;
use crate::text::{
    chars_equal,
    chars_of,
    copy_range,
    nonblank,
    text_of,
    trim,
    push_chars,
    push_str,
    split_at_first,
    split_once,
    starts_with,
    string_of,
    strip_both,
    strip_suffixes,
    trim_chars,
    trimmed,
    without_leading,
    without_suffixes,
    without_trailing,
};

verus! {

/// Host and path of a URL.
#[derive(Debug, Clone, PartialEq, Eq)]
pub struct UrlParts {
    pub host: Option<String>,
    pub path: String,
}

/// What `url::Url::parse` makes of a text: nothing if it is no absolute
/// URL, else its host, if it has one, and its path.
pub uninterp spec fn parsed_url(text: Seq<char>) -> Option<(Option<Seq<char>>, Seq<char>)>;

/// The parts as plain text.
pub open spec fn parts_view(parts: Option<UrlParts>) -> Option<(Option<Seq<char>>, Seq<char>)> {
    match parts {
        Some(found) => Some(
            (
                match found.host {
                    Some(host) => Some(host@),
                    None => None,
                },
                found.path@,
            ),
        ),
        None => None,
    }
}

/// Calls `url::Url::parse` and, where that succeeds, `host_str` and
/// `path` on the URL. The outcome is named, not described: the URL
/// grammar is not restated here.
#[verifier::external_body]
pub(crate) fn parse_url(text: &str) -> (out: Option<UrlParts>)
    ensures
        parts_view(out) == parsed_url(text@),
{
    match url::Url::parse(text) {
        Ok(url) => Some(
            UrlParts {
                host: url.host_str().map(|host| host.to_string()),
                path: url.path().to_string(),
            },
        ),
        Err(_) => None,
    }
}

/// A repository as plain text.
pub struct RepoView {
    pub owner: Seq<char>,
    pub repo: Seq<char>,
    pub url: Seq<char>,
}

impl View for GitHubRepoRef {
    type V = RepoView;

    open spec fn view(&self) -> RepoView {
        RepoView { owner: self.owner@, repo: self.repo@, url: self.url@ }
    }
}

/// What an optional repository holds.
pub open spec fn repo_view(repo: Option<GitHubRepoRef>) -> Option<RepoView> {
    match repo {
        Some(found) => Some(found@),
        None => None,
    }
}

/// The repository `owner`/`repo` with its address on GitHub.
pub open spec fn repo_at(owner: Seq<char>, repo: Seq<char>) -> RepoView {
    RepoView { owner, repo, url: "https://github.com/"@ + owner + seq!['/'] + repo }
}

/// The repository that the path `owner/repo` names, any `.git` at its
/// end set aside. The owner ends at the first `/`; neither owner nor
/// repository may be empty.
pub open spec fn repo_of_path(path: Seq<char>) -> Option<RepoView> {
    match split_at_first(without_suffixes(path, ".git"@), '/') {
        Some((owner, repo)) => if owner.len() > 0 && repo.len() > 0 {
            Some(repo_at(owner, repo))
        } else {
            None
        },
        None => None,
    }
}

/// The repository that a parsed URL names: its host has to be
/// `github.com`, and its path, the slashes at both ends set aside, has
/// to name a repository.
pub open spec fn repo_of_url(parts: Option<(Option<Seq<char>>, Seq<char>)>) -> Option<RepoView> {
    match parts {
        Some((host, path)) => if host == Some("github.com"@) {
            repo_of_path(without_trailing(without_leading(path, '/'), '/'))
        } else {
            None
        },
        None => None,
    }
}

/// The repository that a remote address names, given what parsing the
/// trimmed address as a URL gave.
pub open spec fn remote_repo(
    remote: Seq<char>,
    parts: Option<(Option<Seq<char>>, Seq<char>)>,
) -> Option<RepoView> {
    let address = trimmed(remote);
    if address.len() == 0 {
        None
    } else if "git@github.com:"@.is_prefix_of(address) {
        repo_of_path(address.skip("git@github.com:"@.len() as int))
    } else if "ssh://git@github.com/"@.is_prefix_of(address) {
        repo_of_path(address.skip("ssh://git@github.com/"@.len() as int))
    } else {
        repo_of_url(parts)
    }
}

/// The repository that a remote address names.
pub open spec fn github_repo(remote: Seq<char>) -> Option<RepoView> {
    remote_repo(remote, parsed_url(trimmed(remote)))
}

/// Reads `owner/repo` off a path.
pub fn repo_from_path(path: &[char]) -> (out: Option<GitHubRepoRef>)
    ensures
        repo_view(out) == repo_of_path(path@),
{
    let suffix = chars_of(".git");
    let cleaned = strip_suffixes(path, suffix.as_slice());
    match split_once(cleaned.as_slice(), '/') {
        Some((owner, repo)) => {
            if owner.len() == 0 || repo.len() == 0 {
                return None;
            }
            let mut url: Vec<char> = Vec::new();
            push_str(&mut url, "https://github.com/");
            push_chars(&mut url, owner.as_slice());
            url.push('/');
            push_chars(&mut url, repo.as_slice());
            assert(url@ =~= "https://github.com/"@ + owner@ + seq!['/'] + repo@);
            Some(
                GitHubRepoRef {
                    owner: string_of(owner.as_slice()),
                    repo: string_of(repo.as_slice()),
                    url: string_of(url.as_slice()),
                },
            )
        },
        None => None,
    }
}

/// Reads the repository off a parsed URL.
pub fn repo_from_url(parts: Option<UrlParts>) -> (out: Option<GitHubRepoRef>)
    ensures
        repo_view(out) == repo_of_url(parts_view(parts)),
{
    match parts {
        Some(found) => {
            let on_github = match &found.host {
                Some(host) => {
                    let h = chars_of(host.as_str());
                    let wanted = chars_of("github.com");
                    chars_equal(h.as_slice(), wanted.as_slice())
                },
                None => false,
            };
            if !on_github {
                return None;
            }
            let path = chars_of(found.path.as_str());
            let inner = strip_both(path.as_slice(), '/');
            repo_from_path(inner.as_slice())
        },
        None => None,
    }
}

/// Tells which GitHub repository a git remote address points to;
/// `None` if it points elsewhere, or nowhere.
pub fn parse_github_remote_url(remote_url: &str) -> (out: Option<GitHubRepoRef>)
    ensures
        repo_view(out) == github_repo(remote_url@),
{
    let raw = chars_of(remote_url);
    let address = trim_chars(raw.as_slice());
    if address.len() == 0 {
        return None;
    }
    let scp = chars_of("git@github.com:");
    if starts_with(address.as_slice(), scp.as_slice()) {
        let rest = copy_range(address.as_slice(), scp.len(), address.len());
        assert(rest@ == address@.skip(scp@.len() as int));
        return repo_from_path(rest.as_slice());
    }
    let ssh = chars_of("ssh://git@github.com/");
    if starts_with(address.as_slice(), ssh.as_slice()) {
        let rest = copy_range(address.as_slice(), ssh.len(), address.len());
        assert(rest@ == address@.skip(ssh@.len() as int));
        return repo_from_path(rest.as_slice());
    }
    let text = string_of(address.as_slice());
    repo_from_url(parse_url(text.as_str()))
}

/// What the output of `git remote get-url origin` gives: the address,
/// trimmed, if git succeeded and printed one.
pub fn origin_remote_url(succeeded: bool, printed: Option<&str>) -> (out: Option<String>)
    ensures
        match out {
            Some(url) => succeeded && nonblank(text_of(printed)) == Some(url@),
            None => !succeeded || nonblank(text_of(printed)) is None,
        },
{
    if !succeeded {
        return None;
    }
    match printed {
        Some(text) => {
            let address = trim(text);
            if address.as_str().is_empty() {
                None
            } else {
                Some(address)
            }
        },
        None => None,
    }
}

} // verus!
