//! What the commands read from the settings, and what the settings
//! commands answer.

use vstd::prelude::*;
use crate::text::{nonblank, text_of, trim};

verus! {

/// The answer to a request to restart the backend process.
#[derive(Debug, Clone, Copy, PartialEq, Eq)]
pub struct RestartResult {
    pub restarted: bool,
}

/// Reads a text setting: its value trimmed, unless it is absent or
/// nothing is left of it.
pub fn read_string_setting(value: Option<&str>) -> (out: Option<String>)
    ensures
        match out {
            Some(text) => nonblank(text_of(value)) == Some(text@),
            None => nonblank(text_of(value)) is None,
        },
{
    match value {
        Some(text) => {
            let kept = trim(text);
            if kept.as_str().is_empty() {
                None
            } else {
                Some(kept)
            }
        },
        None => None,
    }
}

} // verus!
