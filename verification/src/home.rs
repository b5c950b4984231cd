//! The home directory of the current user.

use vstd::prelude::*;

verus! {

/// Calls `dirs::home_dir`, which reads `HOME` and asks the user
/// database. Nothing is claimed of what it finds: there may be no home
/// directory at all.
#[verifier::external_body]
pub(crate) fn home_dir() -> (home: Option<String>) {
    dirs::home_dir().map(|path| path.to_string_lossy().into_owned())
}

/// The directory that stands in for a home directory that is not known.
pub open spec fn home_or_root(home: Option<String>) -> Seq<char> {
    match home {
        Some(path) => path@,
        None => seq!['/'],
    }
}

/// Takes the filesystem root where no home directory is known.
pub fn or_root(home: Option<String>) -> (path: String)
    ensures
        path@ == home_or_root(home),
{
    match home {
        Some(path) => path,
        None => {
            let mut root = String::new();
            root.push('/');
            assert(root@ == seq!['/']);
            root
        },
    }
}

/// The home directory of the current user, or the filesystem root if
/// the user has none.
pub fn default_home_directory() -> (path: String) {
    or_root(home_dir())
}

} // verus!
