//! Listing the entries of one directory.
//!
//! The caller reads the directory and looks each entry up; this module
//! decides what the listing says of each, and which entries it leaves out.

use vstd::prelude::*;
use crate::error::FsCommandError;
use crate::paths::{join_chars, joined, normalize_chars, normalized};
use crate::resolve::WorkspaceRoots;
use crate::text::{chars_of, holds_text, string_of, text_set};

verus! {

/// One entry of a directory listing.
#[derive(Debug, Clone, PartialEq, Eq)]
pub struct FileListEntry {
    pub name: String,
    /// The entry's full path, with forward slashes.
    pub path: String,
    /// Whether the entry is a directory, or a link to one.
    pub is_directory: bool,
    pub is_file: bool,
    pub is_symbolic_link: bool,
    /// The size in bytes; of regular files only.
    pub size: Option<u64>,
    /// When the entry was last modified, in milliseconds since the epoch.
    pub modified_time: Option<i64>,
}

/// The listing of a directory.
#[derive(Debug, Clone, PartialEq, Eq)]
pub struct DirectoryListResult {
    pub directory: String,
    pub path: String,
    /// The entries in the order in which the system gave them.
    pub entries: Vec<FileListEntry>,
}

/// The answer to a request for a new directory.
#[derive(Debug, Clone, PartialEq, Eq)]
pub struct CreateDirectoryResponse {
    pub success: bool,
    pub path: String,
}

/// What the directory itself says of an entry, links not followed.
#[derive(Debug, Clone, Copy, PartialEq, Eq)]
pub struct EntryType {
    pub is_dir: bool,
    pub is_file: bool,
    pub is_symlink: bool,
}

/// What looking an entry up gave, links followed.
#[derive(Debug, Clone, Copy, PartialEq, Eq)]
pub struct EntryStat {
    pub is_dir: bool,
    pub is_file: bool,
    /// The size in bytes.
    pub len: u64,
    /// The modification time in milliseconds since the epoch, if the
    /// system tells it.
    pub modified_millis: Option<i64>,
}

/// An entry as the caller found it. `stat` is `None` where the lookup
/// failed, as it does for a link that points nowhere.
#[derive(Debug, Clone, PartialEq, Eq)]
pub struct ListedEntry {
    pub name: String,
    pub kind: EntryType,
    pub stat: Option<EntryStat>,
}

/// A listing entry as plain values.
pub struct FileListEntryView {
    pub name: Seq<char>,
    pub path: Seq<char>,
    pub is_directory: bool,
    pub is_file: bool,
    pub is_symbolic_link: bool,
    pub size: Option<u64>,
    pub modified_time: Option<i64>,
}

/// A found entry as plain values.
pub struct ListedEntryView {
    pub name: Seq<char>,
    pub kind: EntryType,
    pub stat: Option<EntryStat>,
}

impl View for FileListEntry {
    type V = FileListEntryView;

    open spec fn view(&self) -> FileListEntryView {
        FileListEntryView {
            name: self.name@,
            path: self.path@,
            is_directory: self.is_directory,
            is_file: self.is_file,
            is_symbolic_link: self.is_symbolic_link,
            size: self.size,
            modified_time: self.modified_time,
        }
    }
}

impl View for ListedEntry {
    type V = ListedEntryView;

    open spec fn view(&self) -> ListedEntryView {
        ListedEntryView { name: self.name@, kind: self.kind, stat: self.stat }
    }
}

/// The listing entries of a sequence.
pub open spec fn list_views(entries: Seq<FileListEntry>) -> Seq<FileListEntryView> {
    Seq::new(entries.len(), |i: int| entries[i]@)
}

/// The found entries of a sequence.
pub open spec fn found_views(entries: Seq<ListedEntry>) -> Seq<ListedEntryView> {
    Seq::new(entries.len(), |i: int| entries[i]@)
}

/// What the listing of directory `dir` says of `entry`.
///
/// A link counts as a directory if what it points to is one; if the
/// lookup failed it does not. Only a regular file has a size.
pub open spec fn described(dir: Seq<char>, entry: ListedEntryView) -> FileListEntryView {
    FileListEntryView {
        name: entry.name,
        path: normalized(joined(dir, entry.name)),
        is_directory: entry.kind.is_dir || (entry.kind.is_symlink && match entry.stat {
            Some(stat) => stat.is_dir,
            None => false,
        }),
        is_file: entry.kind.is_file,
        is_symbolic_link: entry.kind.is_symlink,
        size: match entry.stat {
            Some(stat) => if stat.is_file {
                Some(stat.len)
            } else {
                None
            },
            None => None,
        },
        modified_time: match entry.stat {
            Some(stat) => stat.modified_millis,
            None => None,
        },
    }
}

/// The listing of the entries of `dir`: each that is not ignored,
/// described, in the order given.
pub open spec fn listed(
    dir: Seq<char>,
    entries: Seq<ListedEntryView>,
    ignored: Set<Seq<char>>,
) -> Seq<FileListEntryView>
    decreases entries.len(),
{
    if entries.len() == 0 {
        Seq::empty()
    } else {
        let before = listed(dir, entries.drop_last(), ignored);
        if ignored.contains(entries.last().name) {
            before
        } else {
            before.push(described(dir, entries.last()))
        }
    }
}

/// Describes one entry of directory `dir`.
pub fn describe_entry(dir: &[char], entry: &ListedEntry) -> (out: FileListEntry)
    ensures
        out@ == described(dir@, entry@),
{
    let name = chars_of(entry.name.as_str());
    let path = join_chars(dir, name.as_slice());
    let shown = normalize_chars(path.as_slice());
    let mut is_directory = entry.kind.is_dir;
    if !is_directory && entry.kind.is_symlink {
        match entry.stat {
            Some(stat) => {
                is_directory = stat.is_dir;
            },
            None => {},
        }
    }
    let size = match entry.stat {
        Some(stat) => if stat.is_file {
            Some(stat.len)
        } else {
            None
        },
        None => None,
    };
    let modified_time = match entry.stat {
        Some(stat) => stat.modified_millis,
        None => None,
    };
    FileListEntry {
        name: entry.name.clone(),
        path: string_of(shown.as_slice()),
        is_directory,
        is_file: entry.kind.is_file,
        is_symbolic_link: entry.kind.is_symlink,
        size,
        modified_time,
    }
}

/// Whether the resolved path `resolved` may be listed: it has to be a
/// directory, and the roots have to permit it. That it is no directory
/// is told first.
pub open spec fn listable(roots: WorkspaceRoots, resolved: Seq<char>, is_directory: bool) -> Result<
    (),
    FsCommandError,
> {
    if !is_directory {
        Err(FsCommandError::NotDirectory)
    } else if !roots.permits(resolved) {
        Err(FsCommandError::OutsideWorkspace)
    } else {
        Ok(())
    }
}

/// Decides whether a resolved path may be listed, before it is read.
/// The roots are asked once more, in case the directory was exchanged
/// since it was resolved.
pub fn check_listable(roots: &WorkspaceRoots, resolved: &str, is_directory: bool) -> (out: Result<
    (),
    FsCommandError,
>)
    ensures
        out == listable(*roots, resolved@, is_directory),
{
    if !is_directory {
        Err(FsCommandError::NotDirectory)
    } else if !roots.allows(resolved) {
        Err(FsCommandError::OutsideWorkspace)
    } else {
        Ok(())
    }
}

/// Lists a directory from what the caller found in it.
///
/// `resolved` is the directory's resolved path and `is_directory` says
/// whether it is one at all; a path that `check_listable` refuses is
/// refused here in the same way. `ignored` names the entries to leave
/// out; an empty list leaves out none.
pub fn list_directory(
    roots: &WorkspaceRoots,
    resolved: &str,
    is_directory: bool,
    entries: &Vec<ListedEntry>,
    ignored: &Vec<String>,
) -> (out: Result<DirectoryListResult, FsCommandError>)
    ensures
        match out {
            Ok(listing) => {
                &&& listable(*roots, resolved@, is_directory) is Ok
                &&& listing.directory@ == normalized(resolved@)
                &&& listing.path@ == normalized(resolved@)
                &&& list_views(listing.entries@) == listed(
                    resolved@,
                    found_views(entries@),
                    text_set(ignored@),
                )
            },
            Err(error) => listable(*roots, resolved@, is_directory) == Err::<(), FsCommandError>(
                error,
            ),
        },
{
    match check_listable(roots, resolved, is_directory) {
        Err(error) => {
            return Err(error);
        },
        Ok(_) => {},
    }
    let dir = chars_of(resolved);
    let ghost all = found_views(entries@);
    let mut out: Vec<FileListEntry> = Vec::new();
    let mut i: usize = 0;
    assert(list_views(out@) =~= listed(resolved@, all.take(0), text_set(ignored@)));
    while i < entries.len()
        invariant
            i <= entries.len(),
            dir@ == resolved@,
            all == found_views(entries@),
            list_views(out@) == listed(resolved@, all.take(i as int), text_set(ignored@)),
        decreases entries.len() - i,
    {
        proof {
            assert(all.take(i + 1).drop_last() == all.take(i as int));
            assert(all.take(i + 1).last() == entries@[i as int]@);
        }
        if !holds_text(ignored, &entries[i].name) {
            let ghost before = list_views(out@);
            let entry = describe_entry(dir.as_slice(), &entries[i]);
            out.push(entry);
            assert(list_views(out@) =~= before.push(entry@));
        }
        i += 1;
    }
    assert(all.take(all.len() as int) == all);
    let shown = normalize_chars(dir.as_slice());
    Ok(
        DirectoryListResult {
            directory: string_of(shown.as_slice()),
            path: string_of(shown.as_slice()),
            entries: out,
        },
    )
}

} // verus!
