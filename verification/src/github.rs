//! What the GitHub commands answer.

use vstd::prelude::*;

verus! {

/// A repository on GitHub.
#[derive(Debug, Clone, PartialEq, Eq)]
pub struct GitHubRepoRef {
    pub owner: String,
    pub repo: String,
    pub url: String,
}

/// The commit statuses of a pull request's head, counted.
#[derive(Debug, Clone, PartialEq, Eq)]
pub struct GitHubChecksSummary {
    pub state: String,
    pub total: u64,
    pub success: u64,
    pub failure: u64,
    pub pending: u64,
}

/// A pull request.
#[derive(Debug, Clone, PartialEq, Eq)]
pub struct GitHubPullRequestSummary {
    pub number: u64,
    pub title: String,
    pub url: String,
    pub state: String,
    pub draft: bool,
    pub base: String,
    pub head: String,
    pub head_sha: Option<String>,
    pub mergeable: Option<bool>,
    pub mergeable_state: Option<String>,
}

/// What is known of the pull request of a branch.
#[derive(Debug, Clone, PartialEq, Eq)]
pub struct GitHubPullRequestStatus {
    pub connected: bool,
    pub repo: Option<GitHubRepoRef>,
    pub branch: Option<String>,
    pub pr: Option<GitHubPullRequestSummary>,
    pub checks: Option<GitHubChecksSummary>,
    pub can_merge: Option<bool>,
}

/// The outcome of a merge.
#[derive(Debug, Clone, PartialEq, Eq)]
pub struct GitHubPullRequestMergeResult {
    pub merged: bool,
    pub message: Option<String>,
}

/// The outcome of marking a pull request ready for review.
#[derive(Debug, Clone, Copy, PartialEq, Eq)]
pub struct GitHubPullRequestReadyResult {
    pub ready: bool,
}

/// A GitHub user.
#[derive(Debug, Clone, PartialEq, Eq)]
pub struct GitHubUserSummary {
    pub login: String,
    pub id: Option<u64>,
    pub avatar_url: Option<String>,
    pub name: Option<String>,
    pub email: Option<String>,
}

/// Whether the application is connected to GitHub, and as whom.
#[derive(Debug, Clone, PartialEq, Eq)]
pub struct GitHubAuthStatus {
    pub connected: bool,
    pub user: Option<GitHubUserSummary>,
    pub scope: Option<String>,
}

/// What the user needs to authorize this device.
#[derive(Debug, Clone, PartialEq, Eq)]
pub struct GitHubDeviceFlowStart {
    pub device_code: String,
    pub user_code: String,
    pub verification_uri: String,
    pub verification_uri_complete: Option<String>,
    pub expires_in: u64,
    pub interval: u64,
    pub scope: Option<String>,
}

/// The device was authorized.
#[derive(Debug, Clone, PartialEq, Eq)]
pub struct GitHubDeviceFlowCompleteSuccess {
    pub connected: bool,
    pub user: GitHubUserSummary,
    pub scope: Option<String>,
}

/// The device is not authorized yet, or was refused.
#[derive(Debug, Clone, PartialEq, Eq)]
pub struct GitHubDeviceFlowCompletePending {
    pub connected: bool,
    pub status: Option<String>,
    pub error: Option<String>,
}

/// The outcome of asking whether the device was authorized.
#[derive(Debug, Clone, PartialEq, Eq)]
pub enum GitHubDeviceFlowComplete {
    Success(GitHubDeviceFlowCompleteSuccess),
    Pending(GitHubDeviceFlowCompletePending),
}

/// The outcome of disconnecting from GitHub.
#[derive(Debug, Clone, Copy, PartialEq, Eq)]
pub struct GitHubDisconnectResult {
    pub removed: bool,
}

} // verus!
