use openchamber::create::{confirm_create_directory, create_directory, plan_create_directory};
use openchamber::error::{FsCommandError, IoFailure};
use openchamber::listing::{
    describe_entry, list_directory, CreateDirectoryResponse, EntryStat, EntryType, FileListEntry,
    ListedEntry,
};
use openchamber::resolve::{CreatablePath, WorkspaceRoots};

const DIR: EntryType = EntryType { is_dir: true, is_file: false, is_symlink: false };
const FILE: EntryType = EntryType { is_dir: false, is_file: true, is_symlink: false };
const LINK: EntryType = EntryType { is_dir: false, is_file: false, is_symlink: true };

fn chars(s: &str) -> Vec<char> {
    s.chars().collect()
}

fn stat(is_dir: bool, len: u64, modified: Option<i64>) -> Option<EntryStat> {
    Some(EntryStat { is_dir, is_file: !is_dir, len, modified_millis: modified })
}

fn found(name: &str, kind: EntryType, stat: Option<EntryStat>) -> ListedEntry {
    ListedEntry { name: name.to_string(), kind, stat }
}

fn roots(list: &[&str]) -> WorkspaceRoots {
    WorkspaceRoots::new(list.iter().map(|s| s.to_string()).collect(), None).unwrap()
}

#[test]
fn regular_file_has_size_and_time() {
    let entry = describe_entry(&chars("/ws"), &found("a.txt", FILE, stat(false, 42, Some(1_700_000_000_123))));
    assert_eq!(
        entry,
        FileListEntry {
            name: "a.txt".to_string(),
            path: "/ws/a.txt".to_string(),
            is_directory: false,
            is_file: true,
            is_symbolic_link: false,
            size: Some(42),
            modified_time: Some(1_700_000_000_123),
        }
    );
}

#[test]
fn directory_has_time_but_no_size() {
    let entry = describe_entry(&chars("/ws"), &found("src", DIR, stat(true, 4096, Some(5))));
    assert!(entry.is_directory);
    assert!(!entry.is_file);
    assert_eq!(entry.size, None);
    assert_eq!(entry.modified_time, Some(5));
}

#[test]
fn link_to_a_directory_counts_as_directory() {
    let entry = describe_entry(&chars("/ws"), &found("to_dir", LINK, stat(true, 4096, Some(5))));
    assert!(entry.is_directory);
    assert!(entry.is_symbolic_link);
    assert!(!entry.is_file);
    assert_eq!(entry.size, None);
}

#[test]
fn link_to_a_file_has_the_size_of_its_target() {
    let entry = describe_entry(&chars("/ws"), &found("to_file", LINK, stat(false, 7, None)));
    assert!(!entry.is_directory);
    assert!(entry.is_symbolic_link);
    assert!(!entry.is_file);
    assert_eq!(entry.size, Some(7));
    assert_eq!(entry.modified_time, None);
}

#[test]
fn dangling_link_is_listed_without_details() {
    let entry = describe_entry(&chars("/ws"), &found("dangling", LINK, None));
    assert_eq!(
        entry,
        FileListEntry {
            name: "dangling".to_string(),
            path: "/ws/dangling".to_string(),
            is_directory: false,
            is_file: false,
            is_symbolic_link: true,
            size: None,
            modified_time: None,
        }
    );
}

#[test]
fn entry_paths_use_forward_slashes() {
    let entry = describe_entry(&chars("C:\\ws"), &found("a", FILE, None));
    assert_eq!(entry.path, "C:/ws/a");
}

#[test]
fn listing_keeps_the_order_given() {
    let entries = vec![found("z", FILE, None), found("a", DIR, None), found("m", LINK, None)];
    let listing = list_directory(&roots(&["/ws"]), "/ws/sub", true, &entries, &Vec::new()).unwrap();
    assert_eq!(listing.directory, "/ws/sub");
    assert_eq!(listing.path, "/ws/sub");
    let names: Vec<&str> = listing.entries.iter().map(|e| e.name.as_str()).collect();
    assert_eq!(names, vec!["z", "a", "m"]);
    assert_eq!(listing.entries[1].path, "/ws/sub/a");
}

#[test]
fn listing_leaves_ignored_entries_out() {
    let entries = vec![found("target", DIR, None), found("src", DIR, None), found("out.log", FILE, None)];
    let ignored = vec!["out.log".to_string(), "target".to_string(), "absent".to_string()];
    let listing = list_directory(&roots(&["/ws"]), "/ws", true, &entries, &ignored).unwrap();
    let names: Vec<&str> = listing.entries.iter().map(|e| e.name.as_str()).collect();
    assert_eq!(names, vec!["src"]);
}

#[test]
fn listing_shows_hidden_entries() {
    let entries = vec![found(".git", DIR, None), found(".env", FILE, None)];
    let listing = list_directory(&roots(&["/ws"]), "/ws", true, &entries, &Vec::new()).unwrap();
    assert_eq!(listing.entries.len(), 2);
}

#[test]
fn listing_a_file_fails_as_not_a_directory() {
    assert_eq!(
        list_directory(&roots(&["/ws"]), "/ws/a.txt", false, &Vec::new(), &Vec::new()),
        Err(FsCommandError::NotDirectory)
    );
    // not being a directory is told first, even outside the roots
    assert_eq!(
        list_directory(&roots(&["/ws"]), "/etc/passwd", false, &Vec::new(), &Vec::new()),
        Err(FsCommandError::NotDirectory)
    );
}

#[test]
fn listing_outside_the_roots_is_refused() {
    assert_eq!(
        list_directory(&roots(&["/ws"]), "/etc", true, &vec![found("passwd", FILE, None)], &Vec::new()),
        Err(FsCommandError::OutsideWorkspace)
    );
}

#[test]
fn listing_without_roots_is_unconfined() {
    let listing =
        list_directory(&WorkspaceRoots::unscoped(), "/etc", true, &vec![found("hosts", FILE, None)], &Vec::new())
            .unwrap();
    assert_eq!(listing.entries[0].path, "/etc/hosts");
}

#[test]
fn empty_directory_lists_no_entries() {
    let listing = list_directory(&roots(&["/ws"]), "/ws", true, &Vec::new(), &Vec::new()).unwrap();
    assert!(listing.entries.is_empty());
}

#[test]
fn create_directory_needs_a_path() {
    let r = roots(&["/ws"]);
    assert_eq!(plan_create_directory(&r, "", "/home/me"), Err("Path is required".to_string()));
    assert_eq!(plan_create_directory(&r, "   ", "/home/me"), Err("Path is required".to_string()));
}

#[test]
fn create_directory_plans_the_trimmed_path() {
    let r = roots(&["/ws"]);
    assert_eq!(
        plan_create_directory(&r, "  docs/new  ", "/home/me"),
        Ok(CreatablePath { target: "/ws/docs/new".to_string(), parent: "/ws/docs".to_string() })
    );
}

#[test]
fn create_directory_refusals_are_messages() {
    let r = roots(&["/ws"]);
    assert_eq!(
        plan_create_directory(&r, "/", "/home/me"),
        Err("Parent path must be a directory".to_string())
    );
    assert_eq!(plan_create_directory(&r, "~", ""), Err("Failed to create directory".to_string()));
    let plan = CreatablePath { target: "/ws/link/new".to_string(), parent: "/ws/link".to_string() };
    assert_eq!(
        confirm_create_directory(&r, plan.clone(), Ok("/etc".to_string())),
        Err("Access to directory denied".to_string())
    );
    assert_eq!(
        confirm_create_directory(&r, plan.clone(), Err(IoFailure::NotFound)),
        Err("Parent directory not found".to_string())
    );
    assert_eq!(
        confirm_create_directory(&r, plan.clone(), Err(IoFailure::PermissionDenied)),
        Err("Access to directory denied".to_string())
    );
    assert_eq!(
        confirm_create_directory(&r, plan, Err(IoFailure::Other("EIO".to_string()))),
        Err("Failed to create directory".to_string())
    );
}

#[test]
fn create_directory_confirms_a_parent_inside_the_roots() {
    let r = roots(&["/ws"]);
    let plan = CreatablePath { target: "/ws/docs/new".to_string(), parent: "/ws/docs".to_string() };
    assert_eq!(
        confirm_create_directory(&r, plan, Ok("/ws/docs".to_string())),
        Ok("/ws/docs/new".to_string())
    );
}

#[test]
fn create_directory_answers_with_the_normalized_path() {
    assert_eq!(
        create_directory("C:\\ws\\new", Ok(())),
        Ok(CreateDirectoryResponse { success: true, path: "C:/ws/new".to_string() })
    );
    assert_eq!(
        create_directory("/ws/new", Err(IoFailure::PermissionDenied)),
        Err("Access to directory denied".to_string())
    );
    assert_eq!(
        create_directory("/ws/new", Err(IoFailure::NotFound)),
        Err("Parent directory not found".to_string())
    );
    assert_eq!(
        create_directory("/ws/new", Err(IoFailure::Other("full".to_string()))),
        Err("Failed to create directory".to_string())
    );
}
