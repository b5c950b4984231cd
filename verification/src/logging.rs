//! Where the desktop log is kept.

use vstd::prelude::*;
use crate::home::home_dir;
use crate::paths::{file_name, file_name_chars, join_chars, joined};
use crate::text::{chars_of, string_of};

verus! {

/// The systems that keep their logs in different places.
#[derive(Debug, Clone, Copy, PartialEq, Eq)]
pub enum Platform {
    MacOs,
    Other,
}

/// The log file with its content.
#[derive(Debug, Clone, PartialEq, Eq)]
pub struct DesktopLogFile {
    pub file_name: String,
    pub content: String,
}

/// The name of the log file.
pub open spec fn log_file_name() -> Seq<char> {
    "openchamber.log"@
}

/// The log directory below the home directory `home`.
pub open spec fn log_directory_in(home: Seq<char>, platform: Platform) -> Seq<char> {
    match platform {
        Platform::MacOs => joined(joined(joined(home, "Library"@), "Logs"@), "OpenChamber"@),
        Platform::Other => joined(joined(joined(home, ".config"@), "openchamber"@), "logs"@),
    }
}

/// The log file below the home directory `home`.
pub open spec fn log_file_in(home: Seq<char>, platform: Platform) -> Seq<char> {
    joined(log_directory_in(home, platform), log_file_name())
}

/// The name under which a log read from `path` is shown: the last
/// component of `path`, or the usual name if it has none.
pub open spec fn shown_log_name(path: Seq<char>) -> Seq<char> {
    if file_name(path).len() > 0 {
        file_name(path)
    } else {
        log_file_name()
    }
}

/// Appends one component to a path.
fn push_component(path: Vec<char>, component: &str) -> (out: Vec<char>)
    ensures
        out@ == joined(path@, component@),
{
    let c = chars_of(component);
    join_chars(path.as_slice(), c.as_slice())
}

/// The log directory below a home directory, if there is one.
pub fn log_directory_below(home: Option<String>, platform: Platform) -> (dir: Option<String>)
    ensures
        match (home, dir) {
            (Some(h), Some(d)) => d@ == log_directory_in(h@, platform),
            (None, None) => true,
            _ => false,
        },
{
    match home {
        Some(h) => {
            let start = chars_of(h.as_str());
            let out = match platform {
                Platform::MacOs => push_component(
                    push_component(push_component(start, "Library"), "Logs"),
                    "OpenChamber",
                ),
                Platform::Other => push_component(
                    push_component(push_component(start, ".config"), "openchamber"),
                    "logs",
                ),
            };
            Some(string_of(out.as_slice()))
        },
        None => None,
    }
}

/// The log file below a home directory, if there is one.
pub fn log_file_below(home: Option<String>, platform: Platform) -> (file: Option<String>)
    ensures
        match (home, file) {
            (Some(h), Some(f)) => f@ == log_file_in(h@, platform),
            (None, None) => true,
            _ => false,
        },
{
    match log_directory_below(home, platform) {
        Some(dir) => {
            let out = push_component(chars_of(dir.as_str()), "openchamber.log");
            Some(string_of(out.as_slice()))
        },
        None => None,
    }
}

/// The directory of the current user's desktop log; `None` if the user
/// has no home directory.
pub fn log_directory(platform: Platform) -> (dir: Option<String>)
    ensures
        dir matches Some(d) ==> exists|home: Seq<char>| d@ == log_directory_in(home, platform),
{
    let home = home_dir();
    let ghost given = home;
    let dir = log_directory_below(home, platform);
    proof {
        if let Some(h) = given {
            assert(dir->0@ == log_directory_in(h@, platform));
        }
    }
    dir
}

/// The current user's desktop log file; `None` if the user has no home
/// directory.
pub fn log_file_path(platform: Platform) -> (file: Option<String>)
    ensures
        file matches Some(f) ==> exists|home: Seq<char>| f@ == log_file_in(home, platform),
{
    let home = home_dir();
    let ghost given = home;
    let file = log_file_below(home, platform);
    proof {
        if let Some(h) = given {
            assert(file->0@ == log_file_in(h@, platform));
        }
    }
    file
}

/// Pairs the content of the log read from `path` with the name to show.
pub fn desktop_log_file(path: &str, content: String) -> (log: DesktopLogFile)
    ensures
        log.file_name@ == shown_log_name(path@),
        log.content == content,
{
    let chars = chars_of(path);
    let name = file_name_chars(chars.as_slice());
    let file_name = if name.len() > 0 {
        string_of(name.as_slice())
    } else {
        "openchamber.log".to_owned()
    };
    DesktopLogFile { file_name, content }
}

} // verus!
