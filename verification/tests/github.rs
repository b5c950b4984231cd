use openchamber::auth::{
    auth_file_cleared, auth_status, device_flow_complete, device_flow_start, disconnect_result,
    disconnected_status, github_auth_path, github_auth_path_below, me_result, needs_email_lookup,
    primary_email, require_device_code,
    resolve_client_config, token_state, token_step, user_summary, ApiUser, DeviceCode, EmailEntry,
    TokenReply, TokenState, TokenStep,
};
use openchamber::error::IoFailure;
use openchamber::github::{
    GitHubAuthStatus, GitHubChecksSummary, GitHubDeviceFlowComplete,
    GitHubDeviceFlowCompletePending, GitHubDeviceFlowCompleteSuccess, GitHubDisconnectResult,
    GitHubPullRequestMergeResult, GitHubPullRequestReadyResult, GitHubPullRequestStatus,
    GitHubPullRequestSummary, GitHubRepoRef, GitHubUserSummary,
};
use openchamber::pulls::{
    can_merge_with, classify_check, classify_reply, create_request, decimal_of, head_of,
    merge_method, merge_result, merge_url, numbered_request, permission_url, pull_request_summary,
    pull_url, pulls_of_branch_url, pulls_url, ready_result, ready_step, status_not_connected,
    status_request, status_url, status_with_pull_request, status_without_pull_request,
    summarize_checks, ApiFailure, CheckOutcome, CreateRequest, PullDetails, ReadyStep, ReplyKind,
};
use openchamber::remote::{origin_remote_url, parse_github_remote_url, repo_from_url, UrlParts};
use openchamber::settings::{read_string_setting, RestartResult};

fn repo(owner: &str, name: &str) -> GitHubRepoRef {
    GitHubRepoRef {
        owner: owner.to_string(),
        repo: name.to_string(),
        url: format!("https://github.com/{}/{}", owner, name),
    }
}

fn user(login: &str) -> GitHubUserSummary {
    GitHubUserSummary { login: login.to_string(), id: Some(7), avatar_url: None, name: None, email: None }
}

fn details() -> PullDetails {
    PullDetails {
        number: 42,
        title: "Add search".to_string(),
        html_url: "https://github.com/o/r/pull/42".to_string(),
        state: "open".to_string(),
        draft: false,
        merged: false,
        mergeable: Some(true),
        mergeable_state: Some("clean".to_string()),
        head_ref: "feature".to_string(),
        head_sha: "abc123".to_string(),
        base_ref: "main".to_string(),
        node_id: Some("PR_node".to_string()),
    }
}

fn states(list: &[&str]) -> Vec<String> {
    list.iter().map(|s| s.to_string()).collect()
}

#[test]
fn scp_style_remote_names_a_repository() {
    assert_eq!(parse_github_remote_url("git@github.com:octo/cat.git"), Some(repo("octo", "cat")));
    assert_eq!(parse_github_remote_url("git@github.com:octo/cat"), Some(repo("octo", "cat")));
    assert_eq!(parse_github_remote_url("  git@github.com:octo/cat.git\n"), Some(repo("octo", "cat")));
}

#[test]
fn ssh_url_remote_names_a_repository() {
    assert_eq!(parse_github_remote_url("ssh://git@github.com/octo/cat.git"), Some(repo("octo", "cat")));
}

#[test]
fn https_remote_names_a_repository() {
    assert_eq!(parse_github_remote_url("https://github.com/octo/cat.git"), Some(repo("octo", "cat")));
    assert_eq!(parse_github_remote_url("https://github.com/octo/cat/"), Some(repo("octo", "cat")));
    assert_eq!(parse_github_remote_url("https://user@github.com/octo/cat"), Some(repo("octo", "cat")));
    assert_eq!(parse_github_remote_url("git://github.com/octo/cat.git"), Some(repo("octo", "cat")));
    // the host is compared as the URL parser gives it, which is in lowercase
    assert_eq!(parse_github_remote_url("https://GitHub.com/octo/cat"), Some(repo("octo", "cat")));
}

#[test]
fn every_trailing_dot_git_is_dropped() {
    assert_eq!(parse_github_remote_url("git@github.com:octo/cat.git.git"), Some(repo("octo", "cat")));
}

#[test]
fn the_owner_ends_at_the_first_slash() {
    assert_eq!(parse_github_remote_url("git@github.com:octo/cat/extra"), Some(repo("octo", "cat/extra")));
}

#[test]
fn remotes_elsewhere_name_no_repository() {
    assert_eq!(parse_github_remote_url("https://gitlab.com/octo/cat.git"), None);
    assert_eq!(parse_github_remote_url("git@gitlab.com:octo/cat.git"), None);
    assert_eq!(parse_github_remote_url("https://github.com.evil.org/octo/cat"), None);
    assert_eq!(parse_github_remote_url("/local/path/repo.git"), None);
    assert_eq!(parse_github_remote_url("not a url"), None);
}

#[test]
fn incomplete_remotes_name_no_repository() {
    assert_eq!(parse_github_remote_url(""), None);
    assert_eq!(parse_github_remote_url("   "), None);
    assert_eq!(parse_github_remote_url("git@github.com:octo"), None);
    assert_eq!(parse_github_remote_url("git@github.com:/cat"), None);
    assert_eq!(parse_github_remote_url("git@github.com:octo/"), None);
    assert_eq!(parse_github_remote_url("git@github.com:octo/.git"), None);
    assert_eq!(parse_github_remote_url("https://github.com/"), None);
    assert_eq!(parse_github_remote_url("https://github.com/octo"), None);
}

#[test]
fn repo_from_url_wants_the_github_host() {
    let parts = |host: Option<&str>, path: &str| {
        Some(UrlParts { host: host.map(|h| h.to_string()), path: path.to_string() })
    };
    assert_eq!(repo_from_url(parts(Some("github.com"), "/octo/cat.git")), Some(repo("octo", "cat")));
    assert_eq!(repo_from_url(parts(Some("github.com"), "///octo/cat///")), Some(repo("octo", "cat")));
    assert_eq!(repo_from_url(parts(Some("example.com"), "/octo/cat")), None);
    assert_eq!(repo_from_url(parts(None, "/octo/cat")), None);
    assert_eq!(repo_from_url(None), None);
}

#[test]
fn numbers_are_written_in_decimal() {
    for n in [0u64, 7, 10, 42, 99, 100, 12345, u64::MAX] {
        let written: String = decimal_of(n).into_iter().collect();
        assert_eq!(written, n.to_string());
    }
}

#[test]
fn api_addresses_are_built_from_the_repository() {
    let r = repo("octo", "cat");
    assert_eq!(pulls_url(&r), "https://api.github.com/repos/octo/cat/pulls");
    assert_eq!(pull_url(&r, 42), "https://api.github.com/repos/octo/cat/pulls/42");
    assert_eq!(merge_url(&r, 42), "https://api.github.com/repos/octo/cat/pulls/42/merge");
    assert_eq!(status_url(&r, "abc123"), "https://api.github.com/repos/octo/cat/commits/abc123/status");
}

#[test]
fn branch_and_login_are_percent_encoded_in_addresses() {
    let r = repo("octo", "cat");
    assert_eq!(head_of(&r, "feat/x y"), "octo:feat/x y");
    assert_eq!(
        pulls_of_branch_url(&r, "feat/x y"),
        "https://api.github.com/repos/octo/cat/pulls?state=open&head=octo%3Afeat%2Fx%20y&per_page=10"
    );
    assert_eq!(
        pulls_of_branch_url(&r, "main"),
        "https://api.github.com/repos/octo/cat/pulls?state=open&head=octo%3Amain&per_page=10"
    );
    assert_eq!(
        permission_url(&r, "renée[bot]"),
        "https://api.github.com/repos/octo/cat/collaborators/ren%C3%A9e%5Bbot%5D/permission"
    );
    assert_eq!(
        permission_url(&r, "plain-user_1.x~"),
        "https://api.github.com/repos/octo/cat/collaborators/plain-user_1.x~/permission"
    );
}

#[test]
fn statuses_are_classified() {
    assert_eq!(classify_check("success"), CheckOutcome::Success);
    assert_eq!(classify_check("failure"), CheckOutcome::Failure);
    assert_eq!(classify_check("error"), CheckOutcome::Failure);
    assert_eq!(classify_check("pending"), CheckOutcome::Pending);
    assert_eq!(classify_check("skipped"), CheckOutcome::Unknown);
    assert_eq!(classify_check("Success"), CheckOutcome::Unknown);
    assert_eq!(classify_check(""), CheckOutcome::Unknown);
}

#[test]
fn checks_are_counted_and_one_failure_fails_them() {
    assert_eq!(
        summarize_checks(&states(&["success", "pending", "error", "failure", "success", "neutral"])),
        GitHubChecksSummary { state: "failure".to_string(), total: 5, success: 2, failure: 2, pending: 1 }
    );
}

#[test]
fn checks_without_failure_are_pending_if_any_is() {
    assert_eq!(
        summarize_checks(&states(&["success", "pending"])),
        GitHubChecksSummary { state: "pending".to_string(), total: 2, success: 1, failure: 0, pending: 1 }
    );
}

#[test]
fn checks_that_all_succeeded_are_a_success() {
    assert_eq!(
        summarize_checks(&states(&["success", "success"])),
        GitHubChecksSummary { state: "success".to_string(), total: 2, success: 2, failure: 0, pending: 0 }
    );
}

#[test]
fn no_known_checks_are_unknown() {
    let nothing = GitHubChecksSummary { state: "unknown".to_string(), total: 0, success: 0, failure: 0, pending: 0 };
    assert_eq!(summarize_checks(&Vec::new()), nothing);
    assert_eq!(summarize_checks(&states(&["neutral", "skipped"])), nothing);
}

#[test]
fn write_access_and_up_may_merge() {
    for level in ["admin", "maintain", "write"] {
        assert!(can_merge_with(level));
    }
    for level in ["read", "triage", "none", "", "Admin", "writer"] {
        assert!(!can_merge_with(level));
    }
}

#[test]
fn pull_request_is_summed_up() {
    assert_eq!(
        pull_request_summary(details(), true),
        GitHubPullRequestSummary {
            number: 42,
            title: "Add search".to_string(),
            url: "https://github.com/o/r/pull/42".to_string(),
            state: "open".to_string(),
            draft: false,
            base: "main".to_string(),
            head: "feature".to_string(),
            head_sha: Some("abc123".to_string()),
            mergeable: Some(true),
            mergeable_state: Some("clean".to_string()),
        }
    );
}

#[test]
fn merged_goes_before_closed_goes_before_open() {
    let mut d = details();
    d.state = "closed".to_string();
    assert_eq!(pull_request_summary(d.clone(), true).state, "closed");
    d.merged = true;
    assert_eq!(pull_request_summary(d.clone(), true).state, "merged");
    // a request just created is not asked whether it was merged
    assert_eq!(pull_request_summary(d.clone(), false).state, "closed");
    d.state = "whatever".to_string();
    d.merged = false;
    assert_eq!(pull_request_summary(d, true).state, "open");
}

#[test]
fn status_of_a_branch_takes_four_shapes() {
    assert_eq!(
        status_not_connected("main".to_string()),
        GitHubPullRequestStatus {
            connected: false,
            repo: None,
            branch: Some("main".to_string()),
            pr: None,
            checks: None,
            can_merge: None,
        }
    );
    assert_eq!(
        status_without_pull_request(None, "main".to_string()),
        GitHubPullRequestStatus {
            connected: true,
            repo: None,
            branch: Some("main".to_string()),
            pr: None,
            checks: None,
            can_merge: Some(false),
        }
    );
    assert_eq!(
        status_without_pull_request(Some(repo("o", "r")), "main".to_string()).repo,
        Some(repo("o", "r"))
    );
    let checks = summarize_checks(&states(&["success"]));
    let full = status_with_pull_request(
        repo("o", "r"),
        "feature".to_string(),
        details(),
        Some(checks.clone()),
        Some("write".to_string()),
    );
    assert_eq!(
        full,
        GitHubPullRequestStatus {
            connected: true,
            repo: Some(repo("o", "r")),
            branch: Some("feature".to_string()),
            pr: Some(pull_request_summary(details(), true)),
            checks: Some(checks),
            can_merge: Some(true),
        }
    );
    let unknown = status_with_pull_request(repo("o", "r"), "f".to_string(), details(), None, None);
    assert_eq!(unknown.can_merge, None);
    let reader =
        status_with_pull_request(repo("o", "r"), "f".to_string(), details(), None, Some("read".to_string()));
    assert_eq!(reader.can_merge, Some(false));
}

#[test]
fn status_request_needs_directory_and_branch() {
    assert_eq!(status_request(" /ws ", " main\n"), Ok(("/ws".to_string(), "main".to_string())));
    let refused = Err("directory and branch are required".to_string());
    assert_eq!(status_request("", "main"), refused);
    assert_eq!(status_request("/ws", "  "), refused);
    assert_eq!(status_request(" ", ""), refused);
}

#[test]
fn create_request_needs_all_four_fields() {
    assert_eq!(
        create_request(" /ws", "Title ", " head", "base "),
        Ok(CreateRequest {
            directory: "/ws".to_string(),
            title: "Title".to_string(),
            head: "head".to_string(),
            base: "base".to_string(),
        })
    );
    let refused = Err("directory, title, head, base are required".to_string());
    assert_eq!(create_request("", "t", "h", "b"), refused);
    assert_eq!(create_request("d", " ", "h", "b"), refused);
    assert_eq!(create_request("d", "t", "", "b"), refused);
    assert_eq!(create_request("d", "t", "h", "\t"), refused);
}

#[test]
fn numbered_request_asks_for_the_directory_first() {
    assert_eq!(numbered_request(" /ws ", 3), Ok("/ws".to_string()));
    assert_eq!(numbered_request("", 3), Err("directory is required".to_string()));
    assert_eq!(numbered_request("/ws", 0), Err("number is required".to_string()));
    assert_eq!(numbered_request("  ", 0), Err("directory is required".to_string()));
}

#[test]
fn merge_method_defaults_to_merge() {
    assert_eq!(merge_method(""), "merge");
    assert_eq!(merge_method("   "), "merge");
    assert_eq!(merge_method(" squash "), "squash");
    assert_eq!(merge_method("rebase"), "rebase");
}

#[test]
fn replies_are_classified_by_status() {
    assert_eq!(classify_reply(401), ReplyKind::Unauthorized);
    assert_eq!(classify_reply(403), ReplyKind::Forbidden);
    assert_eq!(classify_reply(405), ReplyKind::Conflict);
    assert_eq!(classify_reply(409), ReplyKind::Conflict);
    for ok in [200u16, 201, 204, 299] {
        assert_eq!(classify_reply(ok), ReplyKind::Success);
    }
    for bad in [0u16, 199, 300, 404, 422, 500, u16::MAX] {
        assert_eq!(classify_reply(bad), ReplyKind::Failed);
    }
}

#[test]
fn merge_result_follows_the_status() {
    let merged = GitHubPullRequestMergeResult { merged: true, message: Some("done".to_string()) };
    assert_eq!(merge_result(200, "200 OK", Ok(merged.clone())), Ok(merged.clone()));
    assert_eq!(merge_result(200, "200 OK", Err("bad json".to_string())), Err("bad json".to_string()));
    assert_eq!(
        merge_result(401, "401 Unauthorized", Ok(merged.clone())),
        Err("GitHub token expired or revoked".to_string())
    );
    assert_eq!(
        merge_result(403, "403 Forbidden", Ok(merged.clone())),
        Err("Not authorized to merge this PR".to_string())
    );
    for status in [405u16, 409] {
        assert_eq!(
            merge_result(status, "x", Ok(merged.clone())),
            Ok(GitHubPullRequestMergeResult { merged: false, message: Some("PR not mergeable".to_string()) })
        );
    }
    assert_eq!(
        merge_result(500, "500 Internal Server Error", Ok(merged)),
        Err("GitHub merge failed: 500 Internal Server Error".to_string())
    );
}

#[test]
fn ready_result_follows_the_status() {
    assert_eq!(ready_result(200, "200 OK", false), Ok(GitHubPullRequestReadyResult { ready: true }));
    assert_eq!(ready_result(200, "200 OK", true), Err("GitHub GraphQL error".to_string()));
    assert_eq!(ready_result(401, "401", false), Err("GitHub token expired or revoked".to_string()));
    assert_eq!(ready_result(403, "403", false), Err("Not authorized to mark PR ready".to_string()));
    assert_eq!(
        ready_result(502, "502 Bad Gateway", false),
        Err("GitHub request failed: 502 Bad Gateway".to_string())
    );
    assert_eq!(ready_result(409, "409 Conflict", false), Err("GitHub request failed: 409 Conflict".to_string()));
}

#[test]
fn ready_step_needs_the_node_id_even_for_a_ready_request() {
    let mut d = details();
    assert_eq!(ready_step(d.clone()), Ok(ReadyStep::AlreadyReady));
    d.draft = true;
    assert_eq!(ready_step(d.clone()), Ok(ReadyStep::MarkReady("PR_node".to_string())));
    d.node_id = None;
    assert_eq!(ready_step(d.clone()), Err("Failed to resolve PR node id".to_string()));
    d.draft = false;
    assert_eq!(ready_step(d), Err("Failed to resolve PR node id".to_string()));
}

#[test]
fn authorization_is_stored_below_the_home_directory() {
    assert_eq!(
        github_auth_path_below(Some("/home/me".to_string())),
        Ok("/home/me/.config/openchamber/github-auth.json".to_string())
    );
    assert_eq!(github_auth_path_below(None), Err("No home directory".to_string()));
    match github_auth_path() {
        Ok(path) => assert!(path.ends_with("/.config/openchamber/github-auth.json")),
        Err(message) => assert_eq!(message, "No home directory"),
    }
}

#[test]
fn a_missing_authorization_counts_as_cleared() {
    assert!(auth_file_cleared(Ok(())));
    assert!(auth_file_cleared(Err(IoFailure::NotFound)));
    assert!(!auth_file_cleared(Err(IoFailure::PermissionDenied)));
    assert!(!auth_file_cleared(Err(IoFailure::Other("busy".to_string()))));
    assert_eq!(disconnect_result(Ok(())), GitHubDisconnectResult { removed: true });
    assert_eq!(
        disconnect_result(Err(IoFailure::PermissionDenied)),
        GitHubDisconnectResult { removed: false }
    );
}

#[test]
fn text_settings_are_trimmed_and_blank_ones_dropped() {
    assert_eq!(read_string_setting(Some("  abc ")), Some("abc".to_string()));
    assert_eq!(read_string_setting(Some("   ")), None);
    assert_eq!(read_string_setting(Some("")), None);
    assert_eq!(read_string_setting(None), None);
}

#[test]
fn client_config_falls_back_to_the_defaults() {
    assert_eq!(
        resolve_client_config(None, None),
        ("Ov23liNd8TxDcMXtAHHM".to_string(), "repo read:org workflow read:user user:email".to_string())
    );
    assert_eq!(
        resolve_client_config(Some(" mine "), Some(" ")),
        ("mine".to_string(), "repo read:org workflow read:user user:email".to_string())
    );
    assert_eq!(
        resolve_client_config(Some(""), Some("repo")),
        ("Ov23liNd8TxDcMXtAHHM".to_string(), "repo".to_string())
    );
}

#[test]
fn primary_verified_email_is_preferred() {
    let entry = |email: &str, primary: bool, verified: bool| EmailEntry {
        email: email.to_string(),
        primary,
        verified,
    };
    assert_eq!(
        primary_email(&vec![entry("a@x", false, true), entry("b@x", true, true), entry("c@x", true, true)]),
        Some("b@x".to_string())
    );
    assert_eq!(
        primary_email(&vec![entry("a@x", true, false), entry("b@x", false, true), entry("c@x", false, true)]),
        Some("b@x".to_string())
    );
    assert_eq!(primary_email(&vec![entry("a@x", true, false), entry("b@x", false, false)]), None);
    assert_eq!(primary_email(&Vec::new()), None);
}

#[test]
fn user_summary_takes_the_looked_up_email_only_if_needed() {
    let api = |email: Option<&str>| ApiUser {
        login: "octo".to_string(),
        id: 7,
        avatar_url: Some("https://a/7".to_string()),
        name: Some("Octo".to_string()),
        email: email.map(|e| e.to_string()),
    };
    assert!(!needs_email_lookup(&api(Some("own@x"))));
    assert!(needs_email_lookup(&api(Some("   "))));
    assert!(needs_email_lookup(&api(None)));
    assert_eq!(
        user_summary(api(Some("own@x")), Some("other@x".to_string())),
        GitHubUserSummary {
            login: "octo".to_string(),
            id: Some(7),
            avatar_url: Some("https://a/7".to_string()),
            name: Some("Octo".to_string()),
            email: Some("own@x".to_string()),
        }
    );
    assert_eq!(user_summary(api(Some(" ")), Some("other@x".to_string())).email, Some("other@x".to_string()));
    assert_eq!(user_summary(api(None), None).email, None);
}

#[test]
fn token_state_tells_missing_from_blank() {
    assert_eq!(token_state(None), TokenState::Missing);
    assert_eq!(token_state(Some("")), TokenState::Blank);
    assert_eq!(token_state(Some("  ")), TokenState::Blank);
    assert_eq!(token_state(Some("gho_x")), TokenState::Present);
}

#[test]
fn auth_status_follows_the_user_lookup() {
    assert_eq!(
        disconnected_status(),
        GitHubAuthStatus { connected: false, user: None, scope: None }
    );
    assert_eq!(
        auth_status(Ok(user("octo")), Some("repo".to_string())),
        Ok(GitHubAuthStatus { connected: true, user: Some(user("octo")), scope: Some("repo".to_string()) })
    );
    assert_eq!(
        auth_status(Err(ApiFailure::Unauthorized), Some("repo".to_string())),
        Ok(GitHubAuthStatus { connected: false, user: None, scope: None })
    );
    assert_eq!(
        auth_status(Err(ApiFailure::Other("timeout".to_string())), None),
        Err("timeout".to_string())
    );
}

#[test]
fn me_needs_a_stored_and_accepted_token() {
    assert_eq!(me_result(false, Ok(user("octo"))), Err("GitHub not connected".to_string()));
    assert_eq!(me_result(true, Ok(user("octo"))), Ok(user("octo")));
    assert_eq!(
        me_result(true, Err(ApiFailure::Unauthorized)),
        Err("GitHub token expired or revoked".to_string())
    );
    assert_eq!(me_result(true, Err(ApiFailure::Other("down".to_string()))), Err("down".to_string()));
}

#[test]
fn device_flow_start_carries_the_scopes() {
    let code = DeviceCode {
        device_code: "dev".to_string(),
        user_code: "ABCD-1234".to_string(),
        verification_uri: "https://github.com/login/device".to_string(),
        verification_uri_complete: None,
        expires_in: 900,
        interval: 5,
    };
    let start = device_flow_start(code, "repo".to_string());
    assert_eq!(start.device_code, "dev");
    assert_eq!(start.user_code, "ABCD-1234");
    assert_eq!(start.verification_uri, "https://github.com/login/device");
    assert_eq!(start.verification_uri_complete, None);
    assert_eq!(start.expires_in, 900);
    assert_eq!(start.interval, 5);
    assert_eq!(start.scope, Some("repo".to_string()));
}

#[test]
fn device_code_is_required() {
    assert_eq!(require_device_code("dev"), Ok(()));
    assert_eq!(require_device_code(""), Err("deviceCode is required".to_string()));
    assert_eq!(require_device_code("  "), Err("deviceCode is required".to_string()));
}

#[test]
fn token_reply_with_error_is_pending() {
    let reply = |error: Option<&str>, description: Option<&str>, token: Option<&str>| TokenReply {
        access_token: token.map(|t| t.to_string()),
        scope: Some("repo".to_string()),
        token_type: Some("bearer".to_string()),
        error: error.map(|e| e.to_string()),
        error_description: description.map(|d| d.to_string()),
    };
    assert_eq!(
        token_step(reply(Some("authorization_pending"), Some("Wait."), Some("ignored"))),
        Ok(TokenStep::Pending(GitHubDeviceFlowCompletePending {
            connected: false,
            status: Some("authorization_pending".to_string()),
            error: Some("Wait.".to_string()),
        }))
    );
    assert_eq!(
        token_step(reply(Some("slow_down"), None, None)),
        Ok(TokenStep::Pending(GitHubDeviceFlowCompletePending {
            connected: false,
            status: Some("slow_down".to_string()),
            error: Some("slow_down".to_string()),
        }))
    );
    assert_eq!(
        token_step(reply(None, None, Some("gho_x"))),
        Ok(TokenStep::Granted {
            access_token: "gho_x".to_string(),
            scope: Some("repo".to_string()),
            token_type: Some("bearer".to_string()),
        })
    );
    assert_eq!(token_step(reply(None, None, Some(" "))), Err("Missing access_token from GitHub".to_string()));
    assert_eq!(token_step(reply(None, Some("x"), None)), Err("Missing access_token from GitHub".to_string()));
}

#[test]
fn device_flow_completes_with_the_user() {
    assert_eq!(
        device_flow_complete(Ok(user("octo")), Some("repo".to_string())),
        Ok(GitHubDeviceFlowComplete::Success(GitHubDeviceFlowCompleteSuccess {
            connected: true,
            user: user("octo"),
            scope: Some("repo".to_string()),
        }))
    );
    assert_eq!(
        device_flow_complete(Err(ApiFailure::Unauthorized), None),
        Err("GitHub token invalid".to_string())
    );
    assert_eq!(
        device_flow_complete(Err(ApiFailure::Other("boom".to_string())), None),
        Err("boom".to_string())
    );
}

#[test]
fn origin_remote_is_what_git_printed() {
    assert_eq!(
        origin_remote_url(true, Some("git@github.com:o/r.git\n")),
        Some("git@github.com:o/r.git".to_string())
    );
    assert_eq!(origin_remote_url(false, Some("git@github.com:o/r.git\n")), None);
    assert_eq!(origin_remote_url(true, Some("\n")), None);
    assert_eq!(origin_remote_url(true, None), None);
}

#[test]
fn restart_result_says_whether_the_backend_restarted() {
    assert!(RestartResult { restarted: true }.restarted);
    assert_eq!(RestartResult { restarted: false }, RestartResult { restarted: false });
}
