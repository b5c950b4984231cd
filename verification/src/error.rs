//! Errors of the filesystem commands and the messages shown for them.

use vstd::prelude::*;

verus! {

/// Why the operating system refused a filesystem call.
#[derive(Debug, Clone, PartialEq, Eq)]
pub enum IoFailure {
    /// The path does not exist.
    NotFound,
    /// The caller may not access the path.
    PermissionDenied,
    /// Anything else, with the system's own text.
    Other(String),
}

/// Why a filesystem command failed.
#[derive(Debug, Clone, PartialEq, Eq)]
pub enum FsCommandError {
    /// The path does not exist.
    NotFound,
    /// The caller may not access the path.
    AccessDenied,
    /// A directory was needed and the path is none.
    NotDirectory,
    /// The path lies outside every workspace root.
    OutsideWorkspace,
    /// Anything else. The detail is for logs, never for the user.
    Other(String),
}

impl FsCommandError {
    /// The message shown when listing a directory fails.
    pub open spec fn list_message(self) -> Seq<char> {
        match self {
            FsCommandError::NotFound => "Directory not found"@,
            FsCommandError::AccessDenied | FsCommandError::OutsideWorkspace => {
                "Access to directory denied"@
            },
            FsCommandError::NotDirectory => "Specified path is not a directory"@,
            FsCommandError::Other(_) => "Failed to list directory"@,
        }
    }

    /// The message shown when a file search fails.
    pub open spec fn search_message(self) -> Seq<char> {
        match self {
            FsCommandError::NotFound => "Directory not found"@,
            FsCommandError::AccessDenied | FsCommandError::OutsideWorkspace => {
                "Access to directory denied"@
            },
            FsCommandError::NotDirectory => "Specified path is not a directory"@,
            FsCommandError::Other(_) => "Failed to search files"@,
        }
    }

    /// The message shown when creating a directory fails.
    pub open spec fn create_message(self) -> Seq<char> {
        match self {
            FsCommandError::NotFound => "Parent directory not found"@,
            FsCommandError::AccessDenied | FsCommandError::OutsideWorkspace => {
                "Access to directory denied"@
            },
            FsCommandError::NotDirectory => "Parent path must be a directory"@,
            FsCommandError::Other(_) => "Failed to create directory"@,
        }
    }

    /// Renders the error for the user of a directory listing. The detail
    /// of `Other` is left out.
    pub fn to_list_message(&self) -> (message: String)
        ensures
            message@ == self.list_message(),
    {
        match self {
            FsCommandError::NotFound => "Directory not found".to_owned(),
            FsCommandError::AccessDenied | FsCommandError::OutsideWorkspace => {
                "Access to directory denied".to_owned()
            },
            FsCommandError::NotDirectory => "Specified path is not a directory".to_owned(),
            FsCommandError::Other(_) => "Failed to list directory".to_owned(),
        }
    }

    /// Renders the error for the user of a file search. The detail of
    /// `Other` is left out.
    pub fn to_search_message(&self) -> (message: String)
        ensures
            message@ == self.search_message(),
    {
        match self {
            FsCommandError::NotFound => "Directory not found".to_owned(),
            FsCommandError::AccessDenied | FsCommandError::OutsideWorkspace => {
                "Access to directory denied".to_owned()
            },
            FsCommandError::NotDirectory => "Specified path is not a directory".to_owned(),
            FsCommandError::Other(_) => "Failed to search files".to_owned(),
        }
    }

    /// Renders the error for the user who asked for a new directory. The
    /// detail of `Other` is left out.
    pub fn to_create_message(&self) -> (message: String)
        ensures
            message@ == self.create_message(),
    {
        match self {
            FsCommandError::NotFound => "Parent directory not found".to_owned(),
            FsCommandError::AccessDenied | FsCommandError::OutsideWorkspace => {
                "Access to directory denied".to_owned()
            },
            FsCommandError::NotDirectory => "Parent path must be a directory".to_owned(),
            FsCommandError::Other(_) => "Failed to create directory".to_owned(),
        }
    }
}

impl From<IoFailure> for FsCommandError {
    fn from(error: IoFailure) -> (out: Self) {
        match error {
            IoFailure::NotFound => FsCommandError::NotFound,
            IoFailure::PermissionDenied => FsCommandError::AccessDenied,
            IoFailure::Other(detail) => FsCommandError::Other(detail),
        }
    }
}

impl vstd::std_specs::convert::FromSpecImpl<IoFailure> for FsCommandError {
    open spec fn obeys_from_spec() -> bool {
        true
    }

    open spec fn from_spec(error: IoFailure) -> Self {
        match error {
            IoFailure::NotFound => FsCommandError::NotFound,
            IoFailure::PermissionDenied => FsCommandError::AccessDenied,
            IoFailure::Other(detail) => FsCommandError::Other(detail),
        }
    }
}

} // verus!
