//! Rules of the GitHub authorization commands.

use vstd::prelude::*;
use crate::error::IoFailure;
use crate::github::{
    GitHubAuthStatus,
    GitHubDeviceFlowComplete,
    GitHubDeviceFlowCompletePending,
    GitHubDeviceFlowCompleteSuccess,
    GitHubDeviceFlowStart,
    GitHubDisconnectResult,
    GitHubUserSummary,
};
use crate::home::home_dir;
use crate::paths::{join_chars, joined};
use crate::pulls::ApiFailure;
use crate::settings::read_string_setting;
use crate::text::{chars_of, is_blank, nonblank, string_of, text_of, trim, trimmed};

verus! {

/// The client under which the application asks for authorization unless
/// the settings name another.
pub open spec fn default_client_id() -> Seq<char> {
    "Ov23liNd8TxDcMXtAHHM"@
}

/// The scopes that the application asks for unless the settings name
/// others.
pub open spec fn default_scopes() -> Seq<char> {
    "repo read:org workflow read:user user:email"@
}

/// Where the authorization is stored below the home directory `home`.
pub open spec fn auth_path_in(home: Seq<char>) -> Seq<char> {
    joined(joined(joined(home, ".config"@), "openchamber"@), "github-auth.json"@)
}

/// Where the authorization is stored below a home directory, if there
/// is one.
pub fn github_auth_path_below(home: Option<String>) -> (out: Result<String, String>)
    ensures
        match home {
            Some(dir) => out matches Ok(path) && path@ == auth_path_in(dir@),
            None => out matches Err(message) && message@ == "No home directory"@,
        },
{
    match home {
        Some(dir) => {
            let start = chars_of(dir.as_str());
            let a = chars_of(".config");
            let b = chars_of("openchamber");
            let c = chars_of("github-auth.json");
            let one = join_chars(start.as_slice(), a.as_slice());
            let two = join_chars(one.as_slice(), b.as_slice());
            let three = join_chars(two.as_slice(), c.as_slice());
            Ok(string_of(three.as_slice()))
        },
        None => Err("No home directory".to_owned()),
    }
}

/// Where the current user's authorization is stored.
pub fn github_auth_path() -> (out: Result<String, String>)
    ensures
        match out {
            Ok(path) => exists|home: Seq<char>| path@ == auth_path_in(home),
            Err(message) => message@ == "No home directory"@,
        },
{
    let home = home_dir();
    let ghost given = home;
    let out = github_auth_path_below(home);
    proof {
        if let Some(dir) = given {
            assert(out->Ok_0@ == auth_path_in(dir@));
        }
    }
    out
}

/// Whether the stored authorization is gone after an attempt to remove
/// it: it is if the file was removed, or was not there.
pub fn auth_file_cleared(outcome: Result<(), IoFailure>) -> (gone: bool)
    ensures
        gone == (outcome is Ok || outcome == Err::<(), IoFailure>(IoFailure::NotFound)),
{
    match outcome {
        Ok(_) => true,
        Err(IoFailure::NotFound) => true,
        Err(_) => false,
    }
}

/// The answer to a request to disconnect.
pub fn disconnect_result(outcome: Result<(), IoFailure>) -> (result: GitHubDisconnectResult)
    ensures
        result.removed == (outcome is Ok || outcome == Err::<(), IoFailure>(IoFailure::NotFound)),
{
    GitHubDisconnectResult { removed: auth_file_cleared(outcome) }
}

/// The client id and the scopes to ask with: those of the settings
/// where they name any, else the defaults.
pub fn resolve_client_config(client_id: Option<&str>, scopes: Option<&str>) -> (out: (
    String,
    String,
))
    ensures
        out.0@ == match nonblank(text_of(client_id)) {
            Some(text) => text,
            None => default_client_id(),
        },
        out.1@ == match nonblank(text_of(scopes)) {
            Some(text) => text,
            None => default_scopes(),
        },
{
    let id = match read_string_setting(client_id) {
        Some(text) => text,
        None => "Ov23liNd8TxDcMXtAHHM".to_owned(),
    };
    let asked = match read_string_setting(scopes) {
        Some(text) => text,
        None => "repo read:org workflow read:user user:email".to_owned(),
    };
    (id, asked)
}

/// An email address of the user, as GitHub lists it.
#[derive(Debug, Clone, PartialEq, Eq)]
pub struct EmailEntry {
    pub email: String,
    pub primary: bool,
    pub verified: bool,
}

/// The first index from `from` on whose address is verified, and
/// primary too if `primary` asks for that.
pub open spec fn first_verified(entries: Seq<EmailEntry>, primary: bool, from: int) -> Option<int>
    decreases entries.len() - from,
{
    if from < 0 || from >= entries.len() {
        None
    } else if entries[from].verified && (entries[from].primary || !primary) {
        Some(from)
    } else {
        first_verified(entries, primary, from + 1)
    }
}

/// The address to show for a user: the first that is primary and
/// verified, else the first that is verified.
pub open spec fn chosen_email(entries: Seq<EmailEntry>) -> Option<String> {
    match first_verified(entries, true, 0) {
        Some(at) => Some(entries[at].email),
        None => match first_verified(entries, false, 0) {
            Some(at) => Some(entries[at].email),
            None => None,
        },
    }
}

/// Finds the first verified address, primary if asked.
fn find_verified(entries: &Vec<EmailEntry>, primary: bool) -> (out: Option<usize>)
    ensures
        match out {
            Some(at) => first_verified(entries@, primary, 0) == Some(at as int) && at
                < entries.len(),
            None => first_verified(entries@, primary, 0) is None,
        },
{
    let mut i: usize = 0;
    while i < entries.len()
        invariant
            i <= entries.len(),
            first_verified(entries@, primary, 0) == first_verified(entries@, primary, i as int),
        decreases entries.len() - i,
    {
        if entries[i].verified && (entries[i].primary || !primary) {
            return Some(i);
        }
        i += 1;
    }
    None
}

/// Chooses the address to show for a user.
pub fn primary_email(entries: &Vec<EmailEntry>) -> (out: Option<String>)
    ensures
        out == chosen_email(entries@),
{
    match find_verified(entries, true) {
        Some(at) => Some(entries[at].email.clone()),
        None => match find_verified(entries, false) {
            Some(at) => Some(entries[at].email.clone()),
            None => None,
        },
    }
}

/// The user as GitHub describes them.
#[derive(Debug, Clone, PartialEq, Eq)]
pub struct ApiUser {
    pub login: String,
    pub id: u64,
    pub avatar_url: Option<String>,
    pub name: Option<String>,
    pub email: Option<String>,
}

/// Whether the user's own description gives an address to show.
pub open spec fn has_email(email: Option<String>) -> bool {
    email matches Some(text) && trimmed(text@).len() > 0
}

/// Whether the user's addresses have to be asked for, because their own
/// description shows none.
pub fn needs_email_lookup(user: &ApiUser) -> (needed: bool)
    ensures
        needed == !has_email(user.email),
{
    match &user.email {
        Some(text) => is_blank(text.as_str()),
        None => true,
    }
}

/// Sums a user up. `looked_up` is the address that asking for the
/// user's addresses gave; it is shown only where the user's own
/// description shows none.
pub fn user_summary(user: ApiUser, looked_up: Option<String>) -> (summary: GitHubUserSummary)
    ensures
        summary.login == user.login,
        summary.id == Some(user.id),
        summary.avatar_url == user.avatar_url,
        summary.name == user.name,
        summary.email == if has_email(user.email) {
            user.email
        } else {
            looked_up
        },
{
    let shown = needs_email_lookup(&user);
    let email = if shown {
        looked_up
    } else {
        user.email
    };
    GitHubUserSummary {
        login: user.login,
        id: Some(user.id),
        avatar_url: user.avatar_url,
        name: user.name,
        email,
    }
}

/// What is stored of a token.
#[derive(Debug, Clone, Copy, PartialEq, Eq)]
pub enum TokenState {
    /// Nothing is stored.
    Missing,
    /// What is stored holds no token; it is to be removed.
    Blank,
    /// A token is stored.
    Present,
}

/// What is stored of a token.
pub open spec fn token_state_of(token: Option<Seq<char>>) -> TokenState {
    match token {
        None => TokenState::Missing,
        Some(text) => if trimmed(text).len() == 0 {
            TokenState::Blank
        } else {
            TokenState::Present
        },
    }
}

/// Tells what is stored of a token.
pub fn token_state(token: Option<&str>) -> (state: TokenState)
    ensures
        state == token_state_of(text_of(token)),
{
    match token {
        None => TokenState::Missing,
        Some(text) => if is_blank(text) {
            TokenState::Blank
        } else {
            TokenState::Present
        },
    }
}

/// The status when GitHub is not connected.
pub fn disconnected_status() -> (status: GitHubAuthStatus)
    ensures
        !status.connected,
        status.user is None,
        status.scope is None,
{
    GitHubAuthStatus { connected: false, user: None, scope: None }
}

/// The status after the user was asked for with the stored token. A
/// refused token disconnects; any other failure fails the request.
pub fn auth_status(me: Result<GitHubUserSummary, ApiFailure>, scope: Option<String>) -> (out:
    Result<GitHubAuthStatus, String>)
    ensures
        match me {
            Ok(user) => out == Ok::<GitHubAuthStatus, String>(
                GitHubAuthStatus { connected: true, user: Some(user), scope },
            ),
            Err(ApiFailure::Unauthorized) => out == Ok::<GitHubAuthStatus, String>(
                GitHubAuthStatus { connected: false, user: None, scope: None },
            ),
            Err(ApiFailure::Other(message)) => out == Err::<GitHubAuthStatus, String>(message),
        },
{
    match me {
        Ok(user) => Ok(GitHubAuthStatus { connected: true, user: Some(user), scope }),
        Err(ApiFailure::Unauthorized) => Ok(disconnected_status()),
        Err(ApiFailure::Other(message)) => Err(message),
    }
}

/// The user behind the stored token, or why they cannot be told.
/// `stored` says whether anything is stored at all.
pub fn me_result(stored: bool, me: Result<GitHubUserSummary, ApiFailure>) -> (out: Result<
    GitHubUserSummary,
    String,
>)
    ensures
        if !stored {
            out matches Err(m) && m@ == "GitHub not connected"@
        } else {
            match me {
                Ok(user) => out == Ok::<GitHubUserSummary, String>(user),
                Err(ApiFailure::Unauthorized) => out matches Err(m) && m@
                    == "GitHub token expired or revoked"@,
                Err(ApiFailure::Other(message)) => out == Err::<GitHubUserSummary, String>(message),
            }
        },
{
    if !stored {
        return Err("GitHub not connected".to_owned());
    }
    match me {
        Ok(user) => Ok(user),
        Err(ApiFailure::Unauthorized) => Err("GitHub token expired or revoked".to_owned()),
        Err(ApiFailure::Other(message)) => Err(message),
    }
}

/// What GitHub answers when a device asks to be authorized.
#[derive(Debug, Clone, PartialEq, Eq)]
pub struct DeviceCode {
    pub device_code: String,
    pub user_code: String,
    pub verification_uri: String,
    pub verification_uri_complete: Option<String>,
    pub expires_in: u64,
    pub interval: u64,
}

/// What the user needs to authorize this device, with the scopes that
/// were asked for.
pub fn device_flow_start(code: DeviceCode, scopes: String) -> (start: GitHubDeviceFlowStart)
    ensures
        start.device_code == code.device_code,
        start.user_code == code.user_code,
        start.verification_uri == code.verification_uri,
        start.verification_uri_complete == code.verification_uri_complete,
        start.expires_in == code.expires_in,
        start.interval == code.interval,
        start.scope == Some(scopes),
{
    GitHubDeviceFlowStart {
        device_code: code.device_code,
        user_code: code.user_code,
        verification_uri: code.verification_uri,
        verification_uri_complete: code.verification_uri_complete,
        expires_in: code.expires_in,
        interval: code.interval,
        scope: Some(scopes),
    }
}

/// Refuses a request to complete the authorization that names no
/// device code.
pub fn require_device_code(device_code: &str) -> (out: Result<(), String>)
    ensures
        match out {
            Ok(_) => trimmed(device_code@).len() > 0,
            Err(m) => trimmed(device_code@).len() == 0 && m@ == "deviceCode is required"@,
        },
{
    if is_blank(device_code) {
        Err("deviceCode is required".to_owned())
    } else {
        Ok(())
    }
}

/// What GitHub answers when asked for the token of a device.
#[derive(Debug, Clone, PartialEq, Eq)]
pub struct TokenReply {
    pub access_token: Option<String>,
    pub scope: Option<String>,
    pub token_type: Option<String>,
    pub error: Option<String>,
    pub error_description: Option<String>,
}

/// What a token reply comes to.
#[derive(Debug, Clone, PartialEq, Eq)]
pub enum TokenStep {
    /// No token yet: the answer for the caller is complete.
    Pending(GitHubDeviceFlowCompletePending),
    /// A token was granted; the user behind it is asked for next.
    Granted { access_token: String, scope: Option<String>, token_type: Option<String> },
}

/// Reads a token reply. An error in the reply means that the device is
/// not authorized yet: the error is the status, and its description, or
/// itself where there is none, the text to show. A reply with neither
/// error nor token fails the request.
pub fn token_step(reply: TokenReply) -> (out: Result<TokenStep, String>)
    ensures
        match reply.error {
            Some(error) => out == Ok::<TokenStep, String>(
                TokenStep::Pending(
                    GitHubDeviceFlowCompletePending {
                        connected: false,
                        status: Some(error),
                        error: Some(
                            match reply.error_description {
                                Some(text) => text,
                                None => error,
                            },
                        ),
                    },
                ),
            ),
            None => match reply.access_token {
                Some(token) => if trimmed(token@).len() > 0 {
                    out == Ok::<TokenStep, String>(
                        TokenStep::Granted {
                            access_token: token,
                            scope: reply.scope,
                            token_type: reply.token_type,
                        },
                    )
                } else {
                    out matches Err(m) && m@ == "Missing access_token from GitHub"@
                },
                None => out matches Err(m) && m@ == "Missing access_token from GitHub"@,
            },
        },
{
    match reply.error {
        Some(error) => {
            let shown = match reply.error_description {
                Some(text) => text,
                None => error.clone(),
            };
            Ok(
                TokenStep::Pending(
                    GitHubDeviceFlowCompletePending {
                        connected: false,
                        status: Some(error),
                        error: Some(shown),
                    },
                ),
            )
        },
        None => match reply.access_token {
            Some(token) => {
                if is_blank(token.as_str()) {
                    Err("Missing access_token from GitHub".to_owned())
                } else {
                    Ok(
                        TokenStep::Granted {
                            access_token: token,
                            scope: reply.scope,
                            token_type: reply.token_type,
                        },
                    )
                }
            },
            None => Err("Missing access_token from GitHub".to_owned()),
        },
    }
}

/// The answer once the user behind a granted token was asked for. A
/// token that is refused right away is invalid.
pub fn device_flow_complete(
    me: Result<GitHubUserSummary, ApiFailure>,
    scope: Option<String>,
) -> (out: Result<GitHubDeviceFlowComplete, String>)
    ensures
        match me {
            Ok(user) => out == Ok::<GitHubDeviceFlowComplete, String>(
                GitHubDeviceFlowComplete::Success(
                    GitHubDeviceFlowCompleteSuccess { connected: true, user, scope },
                ),
            ),
            Err(ApiFailure::Unauthorized) => out matches Err(m) && m@ == "GitHub token invalid"@,
            Err(ApiFailure::Other(message)) => out == Err::<GitHubDeviceFlowComplete, String>(
                message,
            ),
        },
{
    match me {
        Ok(user) => Ok(
            GitHubDeviceFlowComplete::Success(
                GitHubDeviceFlowCompleteSuccess { connected: true, user, scope },
            ),
        ),
        Err(ApiFailure::Unauthorized) => Err("GitHub token invalid".to_owned()),
        Err(ApiFailure::Other(message)) => Err(message),
    }
}

} // verus!
