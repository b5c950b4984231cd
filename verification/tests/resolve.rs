use openchamber::error::{FsCommandError, IoFailure};
use openchamber::home::{default_home_directory, or_root};
use openchamber::resolve::{CreatablePath, WorkspaceRoots};

fn roots(list: &[&str]) -> WorkspaceRoots {
    WorkspaceRoots::new(list.iter().map(|s| s.to_string()).collect(), None).unwrap()
}

#[test]
fn roots_must_be_absolute() {
    assert!(WorkspaceRoots::new(vec!["/ws".to_string(), "/other".to_string()], None).is_some());
    assert!(WorkspaceRoots::new(vec!["/ws".to_string(), "rel".to_string()], None).is_none());
    assert!(WorkspaceRoots::new(vec!["".to_string()], None).is_none());
    assert!(WorkspaceRoots::new(vec![], Some("rel".to_string())).is_none());
    let made = WorkspaceRoots::new(vec!["/ws".to_string()], Some("/fb".to_string())).unwrap();
    assert_eq!(made.roots, vec!["/ws".to_string()]);
    assert_eq!(made.fallback, Some("/fb".to_string()));
}

#[test]
fn no_roots_confine_nothing() {
    let open = WorkspaceRoots::unscoped();
    assert!(open.allows("/etc/passwd"));
    assert!(open.allows("relative"));
    assert_eq!(
        open.resolve_sandboxed_path(Ok("/etc/passwd".to_string())),
        Ok("/etc/passwd".to_string())
    );
}

#[test]
fn canonical_path_under_a_root_is_admitted() {
    let r = roots(&["/ws", "/second"]);
    assert_eq!(r.resolve_sandboxed_path(Ok("/ws".to_string())), Ok("/ws".to_string()));
    assert_eq!(r.resolve_sandboxed_path(Ok("/ws/a/b".to_string())), Ok("/ws/a/b".to_string()));
    assert_eq!(r.resolve_sandboxed_path(Ok("/second/x".to_string())), Ok("/second/x".to_string()));
}

#[test]
fn canonical_path_outside_every_root_is_refused() {
    let r = roots(&["/ws", "/second"]);
    for outside in ["/", "/etc/passwd", "/ws-evil/a", "/wsx", "/secon", "/home/me/ws"] {
        assert_eq!(
            r.resolve_sandboxed_path(Ok(outside.to_string())),
            Err(FsCommandError::OutsideWorkspace),
            "{}",
            outside
        );
    }
}

#[test]
fn dot_dot_escape_is_refused_once_canonicalized() {
    let r = roots(&["/ws"]);
    // the request "/ws/../etc" is planned as it stands ...
    assert_eq!(r.plan_sandboxed_path(Some("/ws/../etc"), "/home/me"), "/ws/../etc");
    // ... and refused for what the filesystem says it is
    assert_eq!(
        r.resolve_sandboxed_path(Ok("/etc".to_string())),
        Err(FsCommandError::OutsideWorkspace)
    );
}

#[test]
fn symlink_escape_is_refused_once_canonicalized() {
    let r = roots(&["/ws"]);
    assert_eq!(r.plan_sandboxed_path(Some("link/secret"), "/home/me"), "/ws/link/secret");
    assert_eq!(
        r.resolve_sandboxed_path(Ok("/var/secret".to_string())),
        Err(FsCommandError::OutsideWorkspace)
    );
}

#[test]
fn filesystem_failures_are_passed_on() {
    let r = roots(&["/ws"]);
    assert_eq!(r.resolve_sandboxed_path(Err(IoFailure::NotFound)), Err(FsCommandError::NotFound));
    assert_eq!(
        r.resolve_sandboxed_path(Err(IoFailure::PermissionDenied)),
        Err(FsCommandError::AccessDenied)
    );
    assert_eq!(
        r.resolve_sandboxed_path(Err(IoFailure::Other("loop".to_string()))),
        Err(FsCommandError::Other("loop".to_string()))
    );
}

#[test]
fn absent_or_blank_request_means_the_default_root() {
    let r = roots(&["/ws", "/second"]);
    assert_eq!(r.plan_sandboxed_path(None, "/home/me"), "/ws");
    assert_eq!(r.plan_sandboxed_path(Some(""), "/home/me"), "/ws");
    assert_eq!(r.plan_sandboxed_path(Some("  \t "), "/home/me"), "/ws");
}

#[test]
fn default_root_falls_back_to_fallback_then_home() {
    let with_fallback = WorkspaceRoots::new(vec![], Some("/fallback".to_string())).unwrap();
    assert_eq!(with_fallback.plan_sandboxed_path(None, "/home/me"), "/fallback");
    assert_eq!(with_fallback.plan_sandboxed_path(Some("x"), "/home/me"), "/fallback/x");
    let bare = WorkspaceRoots::unscoped();
    assert_eq!(bare.plan_sandboxed_path(None, "/home/me"), "/home/me");
    assert_eq!(bare.plan_sandboxed_path(Some("x/y"), "/home/me"), "/home/me/x/y");
}

#[test]
fn relative_request_joins_the_first_root() {
    let r = roots(&["/ws", "/second"]);
    assert_eq!(r.plan_sandboxed_path(Some("src/main.rs"), "/home/me"), "/ws/src/main.rs");
    assert_eq!(r.plan_sandboxed_path(Some("  src  "), "/home/me"), "/ws/src");
}

#[test]
fn absolute_request_stands_for_itself() {
    let r = roots(&["/ws"]);
    assert_eq!(r.plan_sandboxed_path(Some("/etc/hosts"), "/home/me"), "/etc/hosts");
}

#[test]
fn tilde_request_resolves_like_the_spelled_out_home() {
    let r = roots(&["/ws"]);
    let home = "/home/me";
    assert_eq!(r.plan_sandboxed_path(Some("~/a"), home), "/home/me/a");
    assert_eq!(
        r.plan_sandboxed_path(Some("~/a"), home),
        r.plan_sandboxed_path(Some(&format!("{}{}", home, "/a")), home)
    );
    assert_eq!(
        r.plan_sandboxed_path(Some("  ~/deep/er  "), home),
        r.plan_sandboxed_path(Some("/home/me/deep/er"), home)
    );
    assert_eq!(r.plan_sandboxed_path(Some("~"), home), "/home/me");
}

#[test]
fn tilde_is_expanded_before_the_root_is_joined() {
    let r = roots(&["/ws"]);
    // were the root joined first, this would read "/ws/~/a"
    assert_eq!(r.plan_sandboxed_path(Some("~/a"), "/home/me"), "/home/me/a");
}

#[test]
fn creatable_plan_gives_target_and_parent() {
    let r = roots(&["/ws"]);
    assert_eq!(
        r.plan_creatable_path("new/dir", "/home/me"),
        Ok(CreatablePath { target: "/ws/new/dir".to_string(), parent: "/ws/new".to_string() })
    );
    assert_eq!(
        r.plan_creatable_path("/ws/a", "/home/me"),
        Ok(CreatablePath { target: "/ws/a".to_string(), parent: "/ws".to_string() })
    );
    assert_eq!(
        r.plan_creatable_path("~/notes", "/home/me"),
        Ok(CreatablePath { target: "/home/me/notes".to_string(), parent: "/home/me".to_string() })
    );
}

#[test]
fn creatable_plan_refuses_an_empty_path() {
    let r = roots(&["/ws"]);
    assert_eq!(
        r.plan_creatable_path("", "/home/me"),
        Err(FsCommandError::Other("Path is required".to_string()))
    );
    assert_eq!(
        r.plan_creatable_path("~", ""),
        Err(FsCommandError::Other("Path is required".to_string()))
    );
}

#[test]
fn creatable_plan_refuses_a_path_with_nothing_above_it() {
    let r = roots(&["/ws"]);
    assert_eq!(r.plan_creatable_path("/", "/home/me"), Err(FsCommandError::NotDirectory));
}

#[test]
fn creatable_target_is_returned_as_planned() {
    let r = roots(&["/ws"]);
    let plan = CreatablePath { target: "/ws/a/../b/new".to_string(), parent: "/ws/a/../b".to_string() };
    assert_eq!(
        r.resolve_creatable_path(plan, Ok("/ws/b".to_string())),
        Ok("/ws/a/../b/new".to_string())
    );
}

#[test]
fn creatable_with_parent_outside_roots_is_refused_whatever_the_target_looks_like() {
    let r = roots(&["/ws"]);
    // the target reads as if it lay inside the root, its parent is a link out of it
    let plan = CreatablePath { target: "/ws/link/new".to_string(), parent: "/ws/link".to_string() };
    assert_eq!(
        r.resolve_creatable_path(plan, Ok("/etc".to_string())),
        Err(FsCommandError::OutsideWorkspace)
    );
    let honest = CreatablePath { target: "/etc/new".to_string(), parent: "/etc".to_string() };
    assert_eq!(
        r.resolve_creatable_path(honest, Ok("/etc".to_string())),
        Err(FsCommandError::OutsideWorkspace)
    );
}

#[test]
fn creatable_with_missing_parent_passes_the_failure_on() {
    let r = roots(&["/ws"]);
    let plan = CreatablePath { target: "/ws/no/new".to_string(), parent: "/ws/no".to_string() };
    assert_eq!(
        r.resolve_creatable_path(plan.clone(), Err(IoFailure::NotFound)),
        Err(FsCommandError::NotFound)
    );
    assert_eq!(
        r.resolve_creatable_path(plan, Err(IoFailure::PermissionDenied)),
        Err(FsCommandError::AccessDenied)
    );
}

#[test]
fn unknown_home_is_the_filesystem_root() {
    assert_eq!(or_root(None), "/");
    assert_eq!(or_root(Some("/home/me".to_string())), "/home/me");
}

#[test]
fn default_home_directory_is_never_empty() {
    assert!(!default_home_directory().is_empty());
}
