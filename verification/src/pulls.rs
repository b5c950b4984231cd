//! Rules of the pull request commands: which address to ask, and what to
//! make of the answers.

use vstd::prelude::*;
use vstd::string::StringSliceAdditionalSpecFns;
use crate::github::{
    GitHubChecksSummary,
    GitHubPullRequestMergeResult,
    GitHubPullRequestStatus,
    GitHubPullRequestSummary,
    GitHubRepoRef,
};
use crate::text::{push_chars, push_str, same_text, string_of, trim, trimmed};

verus! {

/// Where the repositories are found on the GitHub API.
pub open spec fn api_repos() -> Seq<char> {
    "https://api.github.com/repos"@
}

/// Whether a byte stands for itself in a percent-encoded text: ASCII
/// letters and digits, and `-`, `.`, `_`, `~`.
pub open spec fn is_unreserved(b: u8) -> bool {
    ||| 0x30 <= b <= 0x39
    ||| 0x41 <= b <= 0x5A
    ||| 0x61 <= b <= 0x7A
    ||| b == 0x2D
    ||| b == 0x2E
    ||| b == 0x5F
    ||| b == 0x7E
}

/// The hexadecimal digit for a value below 16, capitals for ten and up.
pub open spec fn hex_digit(value: int) -> char {
    if value < 10 {
        (0x30 + value) as char
    } else {
        (0x41 + value - 10) as char
    }
}

/// The percent-encoding of a byte string: every byte that is not
/// unreserved becomes `%` and its two hexadecimal digits.
pub open spec fn percent_encoded(bytes: Seq<u8>) -> Seq<char>
    decreases bytes.len(),
{
    if bytes.len() == 0 {
        Seq::empty()
    } else {
        let b = bytes.last();
        percent_encoded(bytes.drop_last()) + if is_unreserved(b) {
            seq![b as char]
        } else {
            seq!['%', hex_digit(b as int / 16), hex_digit(b as int % 16)]
        }
    }
}

/// Calls `urlencoding::encode`, which percent-encodes every byte of the
/// text's UTF-8 form except ASCII letters and digits and `-`, `.`, `_`,
/// `~`, with capital hexadecimal digits.
#[verifier::external_body]
pub(crate) fn url_encode(text: &str) -> (out: String)
    ensures
        out@ == percent_encoded(text.spec_bytes()),
{
    urlencoding::encode(text).into_owned()
}

/// The character for a digit below ten.
pub open spec fn digit_char(d: nat) -> char {
    (0x30 + d) as char
}

/// The decimal numeral of `n`.
pub open spec fn decimal(n: nat) -> Seq<char>
    decreases n,
{
    if n < 10 {
        seq![digit_char(n)]
    } else {
        decimal(n / 10).push(digit_char(n % 10))
    }
}

/// Writes `n` as a decimal numeral.
pub fn decimal_of(n: u64) -> (out: Vec<char>)
    ensures
        out@ == decimal(n as nat),
    decreases n,
{
    let last: u8 = (n % 10) as u8;
    let c: char = (0x30u8 + last) as char;
    if n < 10 {
        let mut out: Vec<char> = Vec::new();
        out.push(c);
        assert(out@ =~= seq![digit_char(n as nat)]);
        out
    } else {
        let mut out = decimal_of(n / 10);
        out.push(c);
        out
    }
}

/// The address of a repository on the API.
pub open spec fn repo_address(owner: Seq<char>, repo: Seq<char>) -> Seq<char> {
    api_repos() + seq!['/'] + owner + seq!['/'] + repo
}

/// The address that lists the open pull requests of `branch`.
pub open spec fn pulls_of_branch_address(
    owner: Seq<char>,
    repo: Seq<char>,
    encoded_head: Seq<char>,
) -> Seq<char> {
    repo_address(owner, repo) + "/pulls?state=open&head="@ + encoded_head + "&per_page=10"@
}

/// The address of pull request `number`.
pub open spec fn pull_address(owner: Seq<char>, repo: Seq<char>, number: nat) -> Seq<char> {
    repo_address(owner, repo) + "/pulls/"@ + decimal(number)
}

/// The address that merges pull request `number`.
pub open spec fn merge_address(owner: Seq<char>, repo: Seq<char>, number: nat) -> Seq<char> {
    pull_address(owner, repo, number) + "/merge"@
}

/// The address of the pull requests of a repository.
pub open spec fn pulls_address(owner: Seq<char>, repo: Seq<char>) -> Seq<char> {
    repo_address(owner, repo) + "/pulls"@
}

/// The address of the combined status of commit `sha`.
pub open spec fn status_address(owner: Seq<char>, repo: Seq<char>, sha: Seq<char>) -> Seq<char> {
    repo_address(owner, repo) + "/commits/"@ + sha + "/status"@
}

/// The address that tells what `login` may do in a repository.
pub open spec fn permission_address(
    owner: Seq<char>,
    repo: Seq<char>,
    encoded_login: Seq<char>,
) -> Seq<char> {
    repo_address(owner, repo) + "/collaborators/"@ + encoded_login + "/permission"@
}

/// The head of a pull request as GitHub wants it named: owner, colon,
/// branch.
pub open spec fn head_label(owner: Seq<char>, branch: Seq<char>) -> Seq<char> {
    owner + seq![':'] + branch
}

/// Begins an address with that of the repository.
fn repo_url(repo: &GitHubRepoRef) -> (out: Vec<char>)
    ensures
        out@ == repo_address(repo.owner@, repo.repo@),
{
    let mut out: Vec<char> = Vec::new();
    push_str(&mut out, "https://api.github.com/repos");
    out.push('/');
    push_str(&mut out, repo.owner.as_str());
    out.push('/');
    push_str(&mut out, repo.repo.as_str());
    assert(out@ =~= repo_address(repo.owner@, repo.repo@));
    out
}

/// The head label of `branch` in the owner's repository.
pub fn head_of(repo: &GitHubRepoRef, branch: &str) -> (out: String)
    ensures
        out@ == head_label(repo.owner@, branch@),
{
    let mut out: Vec<char> = Vec::new();
    push_str(&mut out, repo.owner.as_str());
    out.push(':');
    push_str(&mut out, branch);
    assert(out@ =~= head_label(repo.owner@, branch@));
    string_of(out.as_slice())
}

/// The address that lists the open pull requests of `branch`, at most
/// ten of them.
pub fn pulls_of_branch_url(repo: &GitHubRepoRef, branch: &str) -> (out: String)
    ensures
        out@ == pulls_of_branch_address(
            repo.owner@,
            repo.repo@,
            percent_encoded(vstd::utf8::encode_utf8(head_label(repo.owner@, branch@))),
        ),
{
    let head = head_of(repo, branch);
    let encoded = url_encode(head.as_str());
    let mut out = repo_url(repo);
    push_str(&mut out, "/pulls?state=open&head=");
    push_str(&mut out, encoded.as_str());
    push_str(&mut out, "&per_page=10");
    string_of(out.as_slice())
}

/// The address of pull request `number`.
pub fn pull_url(repo: &GitHubRepoRef, number: u64) -> (out: String)
    ensures
        out@ == pull_address(repo.owner@, repo.repo@, number as nat),
{
    let mut out = repo_url(repo);
    push_str(&mut out, "/pulls/");
    let numeral = decimal_of(number);
    push_chars(&mut out, numeral.as_slice());
    string_of(out.as_slice())
}

/// The address that merges pull request `number`.
pub fn merge_url(repo: &GitHubRepoRef, number: u64) -> (out: String)
    ensures
        out@ == merge_address(repo.owner@, repo.repo@, number as nat),
{
    let mut out = repo_url(repo);
    push_str(&mut out, "/pulls/");
    let numeral = decimal_of(number);
    push_chars(&mut out, numeral.as_slice());
    push_str(&mut out, "/merge");
    string_of(out.as_slice())
}

/// The address to which a new pull request is posted.
pub fn pulls_url(repo: &GitHubRepoRef) -> (out: String)
    ensures
        out@ == pulls_address(repo.owner@, repo.repo@),
{
    let mut out = repo_url(repo);
    push_str(&mut out, "/pulls");
    string_of(out.as_slice())
}

/// The address of the combined status of commit `sha`.
pub fn status_url(repo: &GitHubRepoRef, sha: &str) -> (out: String)
    ensures
        out@ == status_address(repo.owner@, repo.repo@, sha@),
{
    let mut out = repo_url(repo);
    push_str(&mut out, "/commits/");
    push_str(&mut out, sha);
    push_str(&mut out, "/status");
    string_of(out.as_slice())
}

/// The address that tells what `login` may do in the repository.
pub fn permission_url(repo: &GitHubRepoRef, login: &str) -> (out: String)
    ensures
        out@ == permission_address(
            repo.owner@,
            repo.repo@,
            percent_encoded(vstd::utf8::encode_utf8(login@)),
        ),
{
    let encoded = url_encode(login);
    let mut out = repo_url(repo);
    push_str(&mut out, "/collaborators/");
    push_str(&mut out, encoded.as_str());
    push_str(&mut out, "/permission");
    string_of(out.as_slice())
}

/// Why a call to the GitHub API gave nothing.
#[derive(Debug, Clone, PartialEq, Eq)]
pub enum ApiFailure {
    /// The token was refused.
    Unauthorized,
    /// Anything else, with a message.
    Other(String),
}

/// What one commit status counts as.
#[derive(Debug, Clone, Copy, PartialEq, Eq)]
pub enum CheckOutcome {
    Success,
    Failure,
    Pending,
    Unknown,
}

/// What the status `state` counts as: `error` counts as a failure, and
/// any state that is not known counts as nothing.
pub open spec fn outcome_of(state: Seq<char>) -> CheckOutcome {
    if state == "success"@ {
        CheckOutcome::Success
    } else if state == "failure"@ || state == "error"@ {
        CheckOutcome::Failure
    } else if state == "pending"@ {
        CheckOutcome::Pending
    } else {
        CheckOutcome::Unknown
    }
}

/// How many of `states` count as `wanted`.
pub open spec fn count_of(states: Seq<String>, wanted: CheckOutcome) -> nat
    decreases states.len(),
{
    if states.len() == 0 {
        0
    } else {
        count_of(states.drop_last(), wanted) + if outcome_of(states.last()@) == wanted {
            1nat
        } else {
            0nat
        }
    }
}

/// The state of the checks as a whole: one failure fails them; else one
/// pending holds them; else any success passes them.
pub open spec fn overall_state(success: nat, failure: nat, pending: nat) -> Seq<char> {
    if failure > 0 {
        "failure"@
    } else if pending > 0 {
        "pending"@
    } else if success > 0 {
        "success"@
    } else {
        "unknown"@
    }
}

/// Tells what a status counts as.
pub fn classify_check(state: &str) -> (outcome: CheckOutcome)
    ensures
        outcome == outcome_of(state@),
{
    if same_text(state, "success") {
        CheckOutcome::Success
    } else if same_text(state, "failure") || same_text(state, "error") {
        CheckOutcome::Failure
    } else if same_text(state, "pending") {
        CheckOutcome::Pending
    } else {
        CheckOutcome::Unknown
    }
}

/// The counts never exceed the number of states.
pub proof fn lemma_counts_are_bounded(states: Seq<String>)
    ensures
        count_of(states, CheckOutcome::Success) + count_of(states, CheckOutcome::Failure)
            + count_of(states, CheckOutcome::Pending) <= states.len(),
    decreases states.len(),
{
    if states.len() > 0 {
        lemma_counts_are_bounded(states.drop_last());
    }
}

/// Counts the commit statuses of a pull request's head.
pub fn summarize_checks(states: &Vec<String>) -> (summary: GitHubChecksSummary)
    ensures
        summary.success == count_of(states@, CheckOutcome::Success),
        summary.failure == count_of(states@, CheckOutcome::Failure),
        summary.pending == count_of(states@, CheckOutcome::Pending),
        summary.total == summary.success + summary.failure + summary.pending,
        summary.state@ == overall_state(
            summary.success as nat,
            summary.failure as nat,
            summary.pending as nat,
        ),
{
    let mut success: u64 = 0;
    let mut failure: u64 = 0;
    let mut pending: u64 = 0;
    let mut i: usize = 0;
    while i < states.len()
        invariant
            i <= states.len(),
            success == count_of(states@.take(i as int), CheckOutcome::Success),
            failure == count_of(states@.take(i as int), CheckOutcome::Failure),
            pending == count_of(states@.take(i as int), CheckOutcome::Pending),
            success + failure + pending <= i,
        decreases states.len() - i,
    {
        proof {
            assert(states@.take(i + 1).drop_last() == states@.take(i as int));
            assert(states@.take(i + 1).last() == states@[i as int]);
        }
        match classify_check(states[i].as_str()) {
            CheckOutcome::Success => {
                success += 1;
            },
            CheckOutcome::Failure => {
                failure += 1;
            },
            CheckOutcome::Pending => {
                pending += 1;
            },
            CheckOutcome::Unknown => {},
        }
        i += 1;
    }
    assert(states@.take(states@.len() as int) == states@);
    let state = if failure > 0 {
        "failure"
    } else if pending > 0 {
        "pending"
    } else if success > 0 {
        "success"
    } else {
        "unknown"
    };
    GitHubChecksSummary {
        state: state.to_owned(),
        total: success + failure + pending,
        success,
        failure,
        pending,
    }
}

/// The state shown for a pull request: merged before closed before open.
pub open spec fn shown_state(merged: bool, state: Seq<char>) -> Seq<char> {
    if merged {
        "merged"@
    } else if state == "closed"@ {
        "closed"@
    } else {
        "open"@
    }
}

/// Whether a permission allows merging.
pub open spec fn permits_merge(permission: Seq<char>) -> bool {
    permission == "admin"@ || permission == "maintain"@ || permission == "write"@
}

/// Tells whether a collaborator with `permission` may merge.
pub fn can_merge_with(permission: &str) -> (allowed: bool)
    ensures
        allowed == permits_merge(permission@),
{
    same_text(permission, "admin") || same_text(permission, "maintain") || same_text(
        permission,
        "write",
    )
}

/// What GitHub tells of a pull request.
#[derive(Debug, Clone, PartialEq, Eq)]
pub struct PullDetails {
    pub number: u64,
    pub title: String,
    pub html_url: String,
    pub state: String,
    pub draft: bool,
    pub merged: bool,
    pub mergeable: Option<bool>,
    pub mergeable_state: Option<String>,
    pub head_ref: String,
    pub head_sha: String,
    pub base_ref: String,
    pub node_id: Option<String>,
}

/// Sums a pull request up. `ask_merged` says whether it matters that
/// the request was merged: one that was just created is shown as open
/// or closed only.
pub fn pull_request_summary(details: PullDetails, ask_merged: bool) -> (summary:
    GitHubPullRequestSummary)
    ensures
        summary.number == details.number,
        summary.title == details.title,
        summary.url == details.html_url,
        summary.state@ == shown_state(ask_merged && details.merged, details.state@),
        summary.draft == details.draft,
        summary.base == details.base_ref,
        summary.head == details.head_ref,
        summary.head_sha == Some(details.head_sha),
        summary.mergeable == details.mergeable,
        summary.mergeable_state == details.mergeable_state,
{
    let state = if ask_merged && details.merged {
        "merged"
    } else if same_text(details.state.as_str(), "closed") {
        "closed"
    } else {
        "open"
    };
    GitHubPullRequestSummary {
        number: details.number,
        title: details.title,
        url: details.html_url,
        state: state.to_owned(),
        draft: details.draft,
        base: details.base_ref,
        head: details.head_ref,
        head_sha: Some(details.head_sha),
        mergeable: details.mergeable,
        mergeable_state: details.mergeable_state,
    }
}

/// The status of a branch when GitHub is not connected.
pub fn status_not_connected(branch: String) -> (status: GitHubPullRequestStatus)
    ensures
        !status.connected,
        status.repo is None,
        status.branch == Some(branch),
        status.pr is None,
        status.checks is None,
        status.can_merge is None,
{
    GitHubPullRequestStatus {
        connected: false,
        repo: None,
        branch: Some(branch),
        pr: None,
        checks: None,
        can_merge: None,
    }
}

/// The status of a branch that has no pull request. `repo` is `None`
/// where the directory has no GitHub remote.
pub fn status_without_pull_request(repo: Option<GitHubRepoRef>, branch: String) -> (status:
    GitHubPullRequestStatus)
    ensures
        status.connected,
        status.repo == repo,
        status.branch == Some(branch),
        status.pr is None,
        status.checks is None,
        status.can_merge == Some(false),
{
    GitHubPullRequestStatus {
        connected: true,
        repo,
        branch: Some(branch),
        pr: None,
        checks: None,
        can_merge: Some(false),
    }
}

/// The status of a branch with a pull request. `permission` is what
/// the user may do in the repository, where that could be learned.
pub fn status_with_pull_request(
    repo: GitHubRepoRef,
    branch: String,
    details: PullDetails,
    checks: Option<GitHubChecksSummary>,
    permission: Option<String>,
) -> (status: GitHubPullRequestStatus)
    ensures
        status.connected,
        status.repo == Some(repo),
        status.branch == Some(branch),
        ({
            &&& status.pr matches Some(pr)
            &&& pr.number == details.number
            &&& pr.title == details.title
            &&& pr.url == details.html_url
            &&& pr.state@ == shown_state(details.merged, details.state@)
            &&& pr.draft == details.draft
            &&& pr.base == details.base_ref
            &&& pr.head == details.head_ref
            &&& pr.head_sha == Some(details.head_sha)
            &&& pr.mergeable == details.mergeable
            &&& pr.mergeable_state == details.mergeable_state
        }),
        status.checks == checks,
        match permission {
            Some(level) => status.can_merge == Some(permits_merge(level@)),
            None => status.can_merge is None,
        },
{
    let can_merge = match &permission {
        Some(level) => Some(can_merge_with(level.as_str())),
        None => None,
    };
    GitHubPullRequestStatus {
        connected: true,
        repo: Some(repo),
        branch: Some(branch),
        pr: Some(pull_request_summary(details, true)),
        checks,
        can_merge,
    }
}

/// What a request for the status of a branch asks for, trimmed; or the
/// message that refuses it: both directory and branch are needed.
pub fn status_request(directory: &str, branch: &str) -> (out: Result<(String, String), String>)
    ensures
        match out {
            Ok((d, b)) => d@ == trimmed(directory@) && b@ == trimmed(branch@) && d@.len() > 0
                && b@.len() > 0,
            Err(message) => message@ == "directory and branch are required"@ && (trimmed(
                directory@,
            ).len() == 0 || trimmed(branch@).len() == 0),
        },
{
    let d = trim(directory);
    let b = trim(branch);
    if d.as_str().is_empty() || b.as_str().is_empty() {
        Err("directory and branch are required".to_owned())
    } else {
        Ok((d, b))
    }
}

/// A request for a new pull request, trimmed.
#[derive(Debug, Clone, PartialEq, Eq)]
pub struct CreateRequest {
    pub directory: String,
    pub title: String,
    pub head: String,
    pub base: String,
}

/// What a request for a new pull request asks for, trimmed; or the
/// message that refuses it: directory, title, head and base are needed.
pub fn create_request(directory: &str, title: &str, head: &str, base: &str) -> (out: Result<
    CreateRequest,
    String,
>)
    ensures
        match out {
            Ok(request) => {
                &&& request.directory@ == trimmed(directory@)
                &&& request.title@ == trimmed(title@)
                &&& request.head@ == trimmed(head@)
                &&& request.base@ == trimmed(base@)
                &&& request.directory@.len() > 0
                &&& request.title@.len() > 0
                &&& request.head@.len() > 0
                &&& request.base@.len() > 0
            },
            Err(message) => {
                &&& message@ == "directory, title, head, base are required"@
                &&& (trimmed(directory@).len() == 0 || trimmed(title@).len() == 0 || trimmed(
                    head@,
                ).len() == 0 || trimmed(base@).len() == 0)
            },
        },
{
    let request = CreateRequest {
        directory: trim(directory),
        title: trim(title),
        head: trim(head),
        base: trim(base),
    };
    if request.directory.as_str().is_empty() || request.title.as_str().is_empty()
        || request.head.as_str().is_empty() || request.base.as_str().is_empty() {
        Err("directory, title, head, base are required".to_owned())
    } else {
        Ok(request)
    }
}

/// What refuses a request that names a pull request by directory and
/// number, if anything: the directory is asked for first.
pub open spec fn numbered_refusal(directory: Seq<char>, number: u64) -> Option<Seq<char>> {
    if trimmed(directory).len() == 0 {
        Some("directory is required"@)
    } else if number == 0 {
        Some("number is required"@)
    } else {
        None
    }
}

/// The directory of a request that names a pull request by number,
/// trimmed; or the message that refuses the request.
pub fn numbered_request(directory: &str, number: u64) -> (out: Result<String, String>)
    ensures
        match out {
            Ok(d) => numbered_refusal(directory@, number) is None && d@ == trimmed(directory@),
            Err(message) => numbered_refusal(directory@, number) == Some(message@),
        },
{
    let d = trim(directory);
    if d.as_str().is_empty() {
        Err("directory is required".to_owned())
    } else if number == 0 {
        Err("number is required".to_owned())
    } else {
        Ok(d)
    }
}

/// The merge method asked for: the one named, trimmed, or `merge` if
/// none is named.
pub fn merge_method(method: &str) -> (out: String)
    ensures
        out@ == if trimmed(method@).len() == 0 {
            "merge"@
        } else {
            trimmed(method@)
        },
{
    let named = trim(method);
    if named.as_str().is_empty() {
        "merge".to_owned()
    } else {
        named
    }
}

/// What the answer to a request means for the caller.
#[derive(Debug, Clone, Copy, PartialEq, Eq)]
pub enum ReplyKind {
    /// 401: the token was refused.
    Unauthorized,
    /// 403: the user may not do this.
    Forbidden,
    /// 405 or 409: the pull request cannot be merged as it is.
    Conflict,
    /// Any other status outside 200 to 299.
    Failed,
    /// 200 to 299.
    Success,
}

/// What an HTTP status means.
pub open spec fn reply_kind(status: u16) -> ReplyKind {
    if status == 401 {
        ReplyKind::Unauthorized
    } else if status == 403 {
        ReplyKind::Forbidden
    } else if status == 405 || status == 409 {
        ReplyKind::Conflict
    } else if 200 <= status <= 299 {
        ReplyKind::Success
    } else {
        ReplyKind::Failed
    }
}

/// Tells what an HTTP status means.
pub fn classify_reply(status: u16) -> (kind: ReplyKind)
    ensures
        kind == reply_kind(status),
{
    if status == 401 {
        ReplyKind::Unauthorized
    } else if status == 403 {
        ReplyKind::Forbidden
    } else if status == 405 || status == 409 {
        ReplyKind::Conflict
    } else if 200 <= status && status <= 299 {
        ReplyKind::Success
    } else {
        ReplyKind::Failed
    }
}

/// What a merge comes to, by the status of the reply. `status_text` is
/// the status as it is shown; `parsed` is what the body of a successful
/// reply held, or why it could not be read.
pub fn merge_result(
    status: u16,
    status_text: &str,
    parsed: Result<GitHubPullRequestMergeResult, String>,
) -> (out: Result<GitHubPullRequestMergeResult, String>)
    ensures
        match reply_kind(status) {
            ReplyKind::Unauthorized => out matches Err(m) && m@
                == "GitHub token expired or revoked"@,
            ReplyKind::Forbidden => out matches Err(m) && m@ == "Not authorized to merge this PR"@,
            ReplyKind::Conflict => {
                &&& out matches Ok(r)
                &&& !r.merged
                &&& r.message matches Some(m)
                &&& m@ == "PR not mergeable"@
            },
            ReplyKind::Failed => out matches Err(m) && m@ == "GitHub merge failed: "@
                + status_text@,
            ReplyKind::Success => out == parsed,
        },
{
    match classify_reply(status) {
        ReplyKind::Unauthorized => Err("GitHub token expired or revoked".to_owned()),
        ReplyKind::Forbidden => Err("Not authorized to merge this PR".to_owned()),
        ReplyKind::Conflict => Ok(
            GitHubPullRequestMergeResult {
                merged: false,
                message: Some("PR not mergeable".to_owned()),
            },
        ),
        ReplyKind::Failed => {
            let mut message: Vec<char> = Vec::new();
            push_str(&mut message, "GitHub merge failed: ");
            push_str(&mut message, status_text);
            assert(message@ =~= "GitHub merge failed: "@ + status_text@);
            Err(string_of(message.as_slice()))
        },
        ReplyKind::Success => parsed,
    }
}

/// What marking a pull request ready comes to, by the status of the
/// reply. `has_errors` says whether the body of a successful reply
/// reported errors.
pub fn ready_result(status: u16, status_text: &str, has_errors: bool) -> (out: Result<
    crate::github::GitHubPullRequestReadyResult,
    String,
>)
    ensures
        match reply_kind(status) {
            ReplyKind::Unauthorized => out matches Err(m) && m@
                == "GitHub token expired or revoked"@,
            ReplyKind::Forbidden => out matches Err(m) && m@ == "Not authorized to mark PR ready"@,
            ReplyKind::Success => if has_errors {
                out matches Err(m) && m@ == "GitHub GraphQL error"@
            } else {
                out matches Ok(r) && r.ready
            },
            _ => out matches Err(m) && m@ == "GitHub request failed: "@ + status_text@,
        },
{
    match classify_reply(status) {
        ReplyKind::Unauthorized => Err("GitHub token expired or revoked".to_owned()),
        ReplyKind::Forbidden => Err("Not authorized to mark PR ready".to_owned()),
        ReplyKind::Success => {
            if has_errors {
                Err("GitHub GraphQL error".to_owned())
            } else {
                Ok(crate::github::GitHubPullRequestReadyResult { ready: true })
            }
        },
        _ => {
            let mut message: Vec<char> = Vec::new();
            push_str(&mut message, "GitHub request failed: ");
            push_str(&mut message, status_text);
            assert(message@ =~= "GitHub request failed: "@ + status_text@);
            Err(string_of(message.as_slice()))
        },
    }
}

/// What is to be done about a pull request that shall be ready for
/// review.
#[derive(Debug, Clone, PartialEq, Eq)]
pub enum ReadyStep {
    /// It is no draft: nothing is to be done.
    AlreadyReady,
    /// It is a draft; GitHub knows it under this id.
    MarkReady(String),
}

/// Decides what is to be done about a pull request that shall be ready
/// for review. One that GitHub gave no id for is refused, draft or not.
pub fn ready_step(details: PullDetails) -> (out: Result<ReadyStep, String>)
    ensures
        match details.node_id {
            None => out matches Err(m) && m@ == "Failed to resolve PR node id"@,
            Some(id) => if details.draft {
                out == Ok::<ReadyStep, String>(ReadyStep::MarkReady(id))
            } else {
                out == Ok::<ReadyStep, String>(ReadyStep::AlreadyReady)
            },
        },
{
    match details.node_id {
        None => Err("Failed to resolve PR node id".to_owned()),
        Some(id) => {
            if details.draft {
                Ok(ReadyStep::MarkReady(id))
            } else {
                Ok(ReadyStep::AlreadyReady)
            }
        },
    }
}

/// Whether a status says that the request went well.
pub open spec fn is_success(status: u16) -> bool {
    200 <= status <= 299
}

/// Why a reply counts as a failure, if it does: a refused token is told
/// apart; any other status outside 200 to 299 gives `what` followed by
/// the status as it is shown.
pub fn reply_failure(status: u16, what: &str, status_text: &str) -> (out: Option<ApiFailure>)
    ensures
        if status == 401 {
            out == Some(ApiFailure::Unauthorized)
        } else if is_success(status) {
            out is None
        } else {
            out matches Some(ApiFailure::Other(message)) && message@ == what@ + status_text@
        },
{
    if status == 401 {
        Some(ApiFailure::Unauthorized)
    } else if 200 <= status && status <= 299 {
        None
    } else {
        let mut message: Vec<char> = Vec::new();
        push_str(&mut message, what);
        push_str(&mut message, status_text);
        assert(message@ =~= what@ + status_text@);
        Some(ApiFailure::Other(string_of(message.as_slice())))
    }
}

/// The message for a reply that did not go well, where a refused token
/// is nothing special: `what` followed by the status as it is shown.
pub fn failure_message(status: u16, what: &str, status_text: &str) -> (out: Option<String>)
    ensures
        if is_success(status) {
            out is None
        } else {
            out matches Some(message) && message@ == what@ + status_text@
        },
{
    if 200 <= status && status <= 299 {
        None
    } else {
        let mut message: Vec<char> = Vec::new();
        push_str(&mut message, what);
        push_str(&mut message, status_text);
        assert(message@ =~= what@ + status_text@);
        Some(string_of(message.as_slice()))
    }
}

/// The message of a failure, a refused token being told as `refused`.
pub fn failure_text(failure: ApiFailure, refused: &str) -> (out: String)
    ensures
        match failure {
            ApiFailure::Unauthorized => out@ == refused@,
            ApiFailure::Other(message) => out == message,
        },
{
    match failure {
        ApiFailure::Unauthorized => refused.to_owned(),
        ApiFailure::Other(message) => message,
    }
}

} // verus!
