//! Creating a directory inside the workspace.
//!
//! The request goes through three hands. The plan says where the
//! directory would stand and which directory must already hold it. Once
//! the caller has canonicalized that parent, the confirmation admits or
//! refuses the plan. Once the caller has made the directory, the response
//! says how that went. Every refusal is a message for the user.

use vstd::prelude::*;
use vstd::std_specs::convert::FromSpec;
use crate::error::{FsCommandError, IoFailure};
use crate::listing::CreateDirectoryResponse;
use crate::paths::{normalize_path, normalized};
use crate::resolve::{CreatablePath, CreatablePlan, WorkspaceRoots};
use crate::text::{chars_of, string_of, trim_chars, trimmed};

verus! {

/// What planning a new directory gives: where to create it and which
/// parent to confirm, or the message that refuses the request.
pub open spec fn directory_plan(roots: WorkspaceRoots, path: Seq<char>, home: Seq<char>) -> Result<
    (Seq<char>, Seq<char>),
    Seq<char>,
> {
    if trimmed(path).len() == 0 {
        Err("Path is required"@)
    } else {
        match roots.creatable_plan(trimmed(path), home) {
            CreatablePlan::At { target, parent } => Ok((target, parent)),
            CreatablePlan::Missing => Err("Failed to create directory"@),
            CreatablePlan::Rootless => Err("Parent path must be a directory"@),
        }
    }
}

/// Plans the creation of the directory `path`.
pub fn plan_create_directory(roots: &WorkspaceRoots, path: &str, home: &str) -> (out: Result<
    CreatablePath,
    String,
>)
    ensures
        match out {
            Ok(plan) => directory_plan(*roots, path@, home@) == Ok::<
                (Seq<char>, Seq<char>),
                Seq<char>,
            >((plan.target@, plan.parent@)),
            Err(message) => directory_plan(*roots, path@, home@) == Err::<
                (Seq<char>, Seq<char>),
                Seq<char>,
            >(message@),
        },
{
    let raw = chars_of(path);
    let kept = trim_chars(raw.as_slice());
    if kept.len() == 0 {
        return Err("Path is required".to_owned());
    }
    let kept_text = string_of(kept.as_slice());
    match roots.plan_creatable_path(kept_text.as_str(), home) {
        Ok(plan) => Ok(plan),
        Err(error) => Err(error.to_create_message()),
    }
}

/// Admits or refuses a planned directory, given what canonicalizing its
/// parent gave. On success the path to create comes back.
pub fn confirm_create_directory(
    roots: &WorkspaceRoots,
    plan: CreatablePath,
    canonical_parent: Result<String, IoFailure>,
) -> (out: Result<String, String>)
    ensures
        match roots.creation_verdict(plan.target, canonical_parent) {
            Ok(target) => out == Ok::<String, String>(target),
            Err(error) => out matches Err(message) && message@ == error.create_message(),
        },
{
    match roots.resolve_creatable_path(plan, canonical_parent) {
        Ok(target) => Ok(target),
        Err(error) => Err(error.to_create_message()),
    }
}

/// Answers the request once the caller has tried to make the directory
/// `path`: with the path in forward slashes if that went well, with a
/// message if it did not.
pub fn create_directory(path: &str, made: Result<(), IoFailure>) -> (out: Result<
    CreateDirectoryResponse,
    String,
>)
    ensures
        match made {
            Ok(_) => out matches Ok(response) && response.success && response.path@ == normalized(
                path@,
            ),
            Err(failure) => out matches Err(message) && message@ == FsCommandError::from_spec(
                failure,
            ).create_message(),
        },
{
    match made {
        Ok(_) => Ok(CreateDirectoryResponse { success: true, path: normalize_path(path) }),
        Err(failure) => Err(FsCommandError::from(failure).to_create_message()),
    }
}

} // verus!
