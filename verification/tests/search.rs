use openchamber::hits::{FileSearchHit, ScoredFileHit, SearchFilesResponse};
use openchamber::ranking::{lexicographically_before, outranks, rank};
use openchamber::search::{
    clamp_search_limit, eq_ignore_ascii_case, make_hit, name_is_excluded, should_skip_directory,
    to_ascii_lowercase, EntryKind, FileSearch, TreeEntry, DEFAULT_FILE_SEARCH_LIMIT,
    FILE_SEARCH_MAX_CONCURRENCY, MAX_FILE_SEARCH_LIMIT,
};

fn chars(s: &str) -> Vec<char> {
    s.chars().collect()
}

fn dir(name: &str) -> TreeEntry {
    TreeEntry { name: name.to_string(), kind: EntryKind::Directory }
}

fn file(name: &str) -> TreeEntry {
    TreeEntry { name: name.to_string(), kind: EntryKind::File }
}

fn other(name: &str) -> TreeEntry {
    TreeEntry { name: name.to_string(), kind: EntryKind::Other }
}

type Tree = Vec<(&'static str, Vec<TreeEntry>)>;

/// Runs a search over directories held in memory and records which were read.
fn run(tree: &Tree, mut search: FileSearch, read: &mut Vec<String>) -> SearchFilesResponse {
    loop {
        let batch = search.next_batch();
        if batch.is_empty() {
            break;
        }
        assert!(batch.len() <= FILE_SEARCH_MAX_CONCURRENCY);
        for d in batch {
            read.push(d.clone());
            if let Some((_, entries)) = tree.iter().find(|(path, _)| *path == d) {
                search.visit(&d, entries, &Vec::new());
            }
        }
    }
    assert!(search.is_finished());
    search.finish()
}

fn search(tree: &Tree, root: &str, query: Option<&str>, max: Option<usize>) -> SearchFilesResponse {
    run(tree, FileSearch::new(root, query, max, false, false), &mut Vec::new())
}

fn relative_paths(response: &SearchFilesResponse) -> Vec<String> {
    response.files.iter().map(|f| f.relative_path.clone()).collect()
}

fn project() -> Tree {
    vec![
        ("/proj", vec![dir("a"), file("b.md")]),
        ("/proj/a", vec![file("README.md"), dir("node_modules")]),
        ("/proj/a/node_modules", vec![file("x.js")]),
    ]
}

fn scored(relative_path: &str, score: i128) -> ScoredFileHit {
    ScoredFileHit {
        hit: FileSearchHit {
            name: relative_path.rsplit('/').next().unwrap().to_string(),
            path: format!("/r/{}", relative_path),
            relative_path: relative_path.to_string(),
            extension: None,
        },
        score,
    }
}

#[test]
fn limit_zero_clamps_to_one() {
    assert_eq!(clamp_search_limit(Some(0)), 1);
}

#[test]
fn limit_ten_thousand_clamps_to_four_hundred() {
    assert_eq!(clamp_search_limit(Some(10000)), 400);
    assert_eq!(clamp_search_limit(Some(usize::MAX)), 400);
}

#[test]
fn limit_defaults_to_sixty() {
    assert_eq!(clamp_search_limit(None), 60);
    assert_eq!(DEFAULT_FILE_SEARCH_LIMIT, 60);
    assert_eq!(MAX_FILE_SEARCH_LIMIT, 400);
}

#[test]
fn limit_in_range_is_kept() {
    assert_eq!(clamp_search_limit(Some(1)), 1);
    assert_eq!(clamp_search_limit(Some(137)), 137);
    assert_eq!(clamp_search_limit(Some(400)), 400);
    assert_eq!(clamp_search_limit(Some(401)), 400);
}

#[test]
fn hidden_and_listed_directories_are_skipped() {
    for name in ["node_modules", ".git", "dist", "build", ".next", ".turbo", ".cache", "coverage", "tmp", "logs", ".anything"] {
        assert!(should_skip_directory(name), "{}", name);
    }
}

#[test]
fn listed_directories_are_skipped_in_any_case() {
    assert!(should_skip_directory("Node_Modules"));
    assert!(should_skip_directory("BUILD"));
    assert!(should_skip_directory("Dist"));
}

#[test]
fn other_directories_are_searched() {
    for name in ["src", "node_modules2", "builds", "log", "distx", "a.git", "", "tmpx"] {
        assert!(!should_skip_directory(name), "{}", name);
    }
}

#[test]
fn excluded_names_do_not_include_hidden_ones_as_such() {
    assert!(name_is_excluded(&chars(".git")));
    assert!(!name_is_excluded(&chars(".github")));
    assert!(name_is_excluded(&chars("TMP")));
}

#[test]
fn ascii_case_folding_touches_ascii_capitals_only() {
    assert_eq!(to_ascii_lowercase('A'), 'a');
    assert_eq!(to_ascii_lowercase('Z'), 'z');
    assert_eq!(to_ascii_lowercase('a'), 'a');
    assert_eq!(to_ascii_lowercase('@'), '@');
    assert_eq!(to_ascii_lowercase('['), '[');
    assert_eq!(to_ascii_lowercase('Ä'), 'Ä');
    assert!(eq_ignore_ascii_case(&chars("Build"), &chars("bUILD")));
    assert!(!eq_ignore_ascii_case(&chars("Ä"), &chars("ä")));
    assert!(!eq_ignore_ascii_case(&chars("build"), &chars("builds")));
}

#[test]
fn hit_holds_name_paths_and_extension() {
    let hit = make_hit(&chars("/proj"), &chars("/proj/a"), &"README.MD".to_string());
    assert_eq!(
        hit,
        FileSearchHit {
            name: "README.MD".to_string(),
            path: "/proj/a/README.MD".to_string(),
            relative_path: "a/README.MD".to_string(),
            extension: Some("md".to_string()),
        }
    );
    let bare = make_hit(&chars("/proj"), &chars("/proj"), &"Makefile".to_string());
    assert_eq!(bare.relative_path, "Makefile");
    assert_eq!(bare.extension, None);
}

#[test]
fn search_for_readme_finds_exactly_one_file() {
    let response = search(&project(), "/proj", Some("readme"), None);
    assert_eq!(relative_paths(&response), vec!["a/README.md"]);
    assert_eq!(response.count, 1);
    assert_eq!(response.root, "/proj");
    assert_eq!(
        response.files[0],
        FileSearchHit {
            name: "README.md".to_string(),
            path: "/proj/a/README.md".to_string(),
            relative_path: "a/README.md".to_string(),
            extension: Some("md".to_string()),
        }
    );
}

#[test]
fn search_for_everything_finds_the_two_files_outside_node_modules() {
    let response = search(&project(), "/proj", Some(""), None);
    assert_eq!(relative_paths(&response), vec!["b.md", "a/README.md"]);
    assert_eq!(response.count, 2);
    let absent = search(&project(), "/proj", None, None);
    assert_eq!(relative_paths(&absent), vec!["b.md", "a/README.md"]);
}

#[test]
fn node_modules_is_never_read() {
    for include_hidden in [false, true] {
        let mut read = Vec::new();
        let response = run(
            &project(),
            FileSearch::new("/proj", None, None, include_hidden, false),
            &mut read,
        );
        assert_eq!(read, vec!["/proj", "/proj/a"]);
        assert!(response.files.iter().all(|f| !f.path.contains("node_modules")));
    }
}

#[test]
fn excluded_hidden_directories_stay_out_even_with_hidden_included() {
    let tree: Tree = vec![
        ("/p", vec![dir(".git"), dir(".github"), file(".env"), dir(".cache")]),
        ("/p/.git", vec![file("config")]),
        ("/p/.github", vec![file("ci.yml")]),
        ("/p/.cache", vec![file("blob")]),
    ];
    let mut read = Vec::new();
    let response = run(&tree, FileSearch::new("/p", None, None, true, false), &mut read);
    assert_eq!(read, vec!["/p", "/p/.github"]);
    assert_eq!(relative_paths(&response), vec![".env", ".github/ci.yml"]);
}

#[test]
fn hidden_entries_are_left_out_by_default() {
    let tree: Tree = vec![
        ("/p", vec![dir(".github"), file(".env"), file("shown.txt")]),
        ("/p/.github", vec![file("ci.yml")]),
    ];
    let mut read = Vec::new();
    let response = run(&tree, FileSearch::new("/p", None, None, false, false), &mut read);
    assert_eq!(read, vec!["/p"]);
    assert_eq!(relative_paths(&response), vec!["shown.txt"]);
}

#[test]
fn ignored_entries_are_left_out_only_on_request() {
    let entries = vec![dir("target"), file("kept.rs"), file("generated.rs")];
    let ignored = vec!["target".to_string(), "generated.rs".to_string()];

    let mut respecting = FileSearch::new("/p", None, None, false, true);
    assert_eq!(respecting.next_batch(), vec!["/p"]);
    respecting.visit("/p", &entries, &ignored);
    assert!(respecting.next_batch().is_empty());
    assert_eq!(relative_paths(&respecting.finish()), vec!["kept.rs"]);

    let mut careless = FileSearch::new("/p", None, None, false, false);
    assert_eq!(careless.next_batch(), vec!["/p"]);
    careless.visit("/p", &entries, &ignored);
    assert_eq!(careless.next_batch(), vec!["/p/target"]);
    assert_eq!(relative_paths(&careless.finish()), vec!["kept.rs", "generated.rs"]);
}

#[test]
fn entries_that_are_neither_file_nor_directory_are_passed_over() {
    let tree: Tree = vec![("/p", vec![other("socket"), other("link"), file("real")])];
    assert_eq!(relative_paths(&search(&tree, "/p", None, None)), vec!["real"]);
}

#[test]
fn entries_without_a_name_are_passed_over() {
    let tree: Tree = vec![("/p", vec![file(""), dir(""), file("x")])];
    let mut read = Vec::new();
    let response = run(&tree, FileSearch::new("/p", None, None, true, false), &mut read);
    assert_eq!(read, vec!["/p"]);
    assert_eq!(relative_paths(&response), vec!["x"]);
}

#[test]
fn match_all_keeps_breadth_first_order_and_does_not_rank() {
    let tree: Tree = vec![
        ("/r", vec![file("zz_long_name_last.txt"), dir("d1"), dir("d2"), file("a")]),
        ("/r/d1", vec![dir("deep"), file("m")]),
        ("/r/d2", vec![file("b")]),
        ("/r/d1/deep", vec![file("c")]),
    ];
    let response = search(&tree, "/r", None, None);
    assert_eq!(
        relative_paths(&response),
        vec!["zz_long_name_last.txt", "a", "d1/m", "d2/b", "d1/deep/c"]
    );
}

#[test]
fn directories_are_read_breadth_first() {
    let tree: Tree = vec![
        ("/r", vec![dir("d1"), dir("d2")]),
        ("/r/d1", vec![dir("x")]),
        ("/r/d2", vec![dir("y")]),
        ("/r/d1/x", vec![]),
        ("/r/d2/y", vec![]),
    ];
    let mut read = Vec::new();
    run(&tree, FileSearch::new("/r", None, None, false, false), &mut read);
    assert_eq!(read, vec!["/r", "/r/d1", "/r/d2", "/r/d1/x", "/r/d2/y"]);
}

#[test]
fn match_all_stops_at_the_limit() {
    let tree: Tree = vec![
        ("/r", vec![file("1"), file("2"), dir("d"), file("3"), file("4")]),
        ("/r/d", vec![file("5")]),
    ];
    let mut read = Vec::new();
    let response = run(&tree, FileSearch::new("/r", None, Some(3), false, false), &mut read);
    assert_eq!(relative_paths(&response), vec!["1", "2", "3"]);
    assert_eq!(response.count, 3);
    // enough was found in the root: the subdirectory is not read
    assert_eq!(read, vec!["/r"]);
}

#[test]
fn collection_never_exceeds_its_limit() {
    let entries: Vec<TreeEntry> = (0..50).map(|i| file(&format!("f{}", i))).collect();
    let mut s = FileSearch::new("/r", None, Some(7), false, false);
    assert_eq!(s.next_batch(), vec!["/r"]);
    s.visit("/r", &entries, &Vec::new());
    assert_eq!(s.candidate_count(), 7);
    s.visit("/r", &entries, &Vec::new());
    assert_eq!(s.candidate_count(), 7);
    assert!(s.is_finished());
}

#[test]
fn collection_stops_in_the_middle_of_a_round() {
    let subdirs: Vec<TreeEntry> = (0..5).map(|i| dir(&format!("d{}", i))).collect();
    let files: Vec<TreeEntry> = (0..3).map(|i| file(&format!("f{}", i))).collect();
    let mut s = FileSearch::new("/r", None, Some(4), false, false);
    assert_eq!(s.next_batch(), vec!["/r"]);
    s.visit("/r", &subdirs, &Vec::new());
    let round = s.next_batch();
    assert_eq!(round.len(), 5);
    // the second directory of the round fills the collection: the cap is
    // hard, and the rest of the round adds nothing
    s.visit(&round[0], &files, &Vec::new());
    assert_eq!(s.candidate_count(), 3);
    s.visit(&round[1], &files, &Vec::new());
    assert_eq!(s.candidate_count(), 4);
    s.visit(&round[2], &files, &Vec::new());
    assert_eq!(s.candidate_count(), 4);
    assert!(s.is_finished());
    assert!(s.next_batch().is_empty());
    assert_eq!(relative_paths(&s.finish()), vec!["d0/f0", "d0/f1", "d0/f2", "d1/f0"]);
}

#[test]
fn a_cancelled_search_returns_what_it_has() {
    let mut s = FileSearch::new("/r", None, None, false, false);
    assert_eq!(s.next_batch(), vec!["/r"]);
    s.visit("/r", &vec![dir("a"), file("found"), dir("b")], &Vec::new());
    assert!(!s.is_finished());
    s.cancel();
    assert!(s.is_finished());
    assert!(s.next_batch().is_empty());
    assert_eq!(relative_paths(&s.finish()), vec!["found"]);
}

#[test]
fn a_query_collects_more_than_it_returns() {
    let entries: Vec<TreeEntry> = (0..500).map(|i| file(&format!("file{:03}.txt", i))).collect();
    let mut s = FileSearch::new("/r", Some("file"), Some(10), false, false);
    assert_eq!(s.next_batch(), vec!["/r"]);
    s.visit("/r", &entries, &Vec::new());
    // max(10 * 3, 200)
    assert_eq!(s.candidate_count(), 200);
    assert_eq!(s.finish().count, 10);

    let mut wide = FileSearch::new("/r", Some("file"), Some(100), false, false);
    wide.next_batch();
    wide.visit("/r", &entries, &Vec::new());
    // max(100 * 3, 200)
    assert_eq!(wide.candidate_count(), 300);
}

#[test]
fn at_most_five_directories_are_handed_out_at_a_time() {
    let subdirs: Vec<TreeEntry> = (0..12).map(|i| dir(&format!("d{:02}", i))).collect();
    let mut s = FileSearch::new("/r", None, None, false, false);
    assert_eq!(s.next_batch(), vec!["/r"]);
    s.visit("/r", &subdirs, &Vec::new());
    assert_eq!(s.next_batch(), vec!["/r/d00", "/r/d01", "/r/d02", "/r/d03", "/r/d04"]);
    assert_eq!(s.next_batch(), vec!["/r/d05", "/r/d06", "/r/d07", "/r/d08", "/r/d09"]);
    assert_eq!(s.next_batch(), vec!["/r/d10", "/r/d11"]);
    assert!(s.next_batch().is_empty());
    assert!(s.is_finished());
}

#[test]
fn a_directory_is_queued_once() {
    let mut s = FileSearch::new("/r", None, None, false, false);
    assert_eq!(s.next_batch(), vec!["/r"]);
    s.visit("/r", &vec![dir("again"), dir("again")], &Vec::new());
    s.visit("/r", &vec![dir("again")], &Vec::new());
    assert_eq!(s.next_batch(), vec!["/r/again"]);
    assert!(s.next_batch().is_empty());
}

#[test]
fn the_root_itself_is_not_queued_again() {
    let mut s = FileSearch::new("/r/", None, None, false, false);
    assert_eq!(s.next_batch(), vec!["/r/"]);
    s.visit("/", &vec![dir("r/")], &Vec::new());
    assert!(s.next_batch().is_empty());
}

#[test]
fn a_directory_that_cannot_be_read_is_passed_over() {
    let tree: Tree = vec![
        ("/r", vec![dir("locked"), dir("open")]),
        ("/r/open", vec![file("found")]),
    ];
    let mut read = Vec::new();
    let response = run(&tree, FileSearch::new("/r", None, None, false, false), &mut read);
    assert_eq!(read, vec!["/r", "/r/locked", "/r/open"]);
    assert_eq!(relative_paths(&response), vec!["open/found"]);
}

#[test]
fn query_is_trimmed_and_lowercased() {
    let response = search(&project(), "/proj", Some("  README  "), None);
    assert_eq!(relative_paths(&response), vec!["a/README.md"]);
    let blank = search(&project(), "/proj", Some("   "), None);
    assert_eq!(blank.count, 2);
}

#[test]
fn query_is_matched_against_the_relative_path() {
    let tree: Tree = vec![
        ("/r", vec![dir("src"), file("src.txt")]),
        ("/r/src", vec![file("main.rs")]),
    ];
    // "src/main" occurs in no file name, only in the path
    assert_eq!(relative_paths(&search(&tree, "/r", Some("src/main"), None)), vec!["src/main.rs"]);
}

#[test]
fn files_that_do_not_match_are_left_out() {
    let tree: Tree = vec![("/r", vec![file("alpha"), file("beta"), file("gamma")])];
    assert_eq!(relative_paths(&search(&tree, "/r", Some("bt"), None)), vec!["beta"]);
    assert_eq!(search(&tree, "/r", Some("zzz"), None).count, 0);
}

#[test]
fn results_are_ranked_by_score_then_length_then_name() {
    let tree: Tree = vec![
        ("/r", vec![file("xmain.rs"), file("main.rs"), dir("b"), dir("a"), file("main.c"), file("main.rb")]),
        ("/r/b", vec![file("main.rs")]),
        ("/r/a", vec![file("main.rs")]),
    ];
    let response = search(&tree, "/r", Some("main"), None);
    assert_eq!(
        relative_paths(&response),
        // 119: "main.c"; 119: "main.rb", "main.rs" (same length, by name);
        // 114: "a/main.rs", "b/main.rs"; 98: "xmain.rs"
        vec!["main.c", "main.rb", "main.rs", "a/main.rs", "b/main.rs", "xmain.rs"]
    );
}

#[test]
fn ranked_results_are_cut_at_the_limit() {
    let tree: Tree = vec![("/r", vec![file("xxmain"), file("xmain"), file("main")])];
    let response = search(&tree, "/r", Some("main"), Some(2));
    assert_eq!(relative_paths(&response), vec!["main", "xmain"]);
    assert_eq!(response.count, 2);
}

#[test]
fn rank_orders_by_score_descending() {
    let ranked = rank(vec![scored("low", 1), scored("high", 9), scored("mid", 5)]);
    let names: Vec<&str> = ranked.iter().map(|c| c.hit.relative_path.as_str()).collect();
    assert_eq!(names, vec!["high", "mid", "low"]);
}

#[test]
fn rank_breaks_ties_by_length_then_bytes() {
    let ranked = rank(vec![scored("bbb", 5), scored("cc", 5), scored("aaa", 5), scored("ab", 5), scored("z", 5)]);
    let names: Vec<&str> = ranked.iter().map(|c| c.hit.relative_path.as_str()).collect();
    assert_eq!(names, vec!["z", "ab", "cc", "aaa", "bbb"]);
}

#[test]
fn rank_measures_length_in_bytes() {
    // "é" is one character and two bytes: "éé" is longer than "abc"
    let ranked = rank(vec![scored("éé", 5), scored("abc", 5)]);
    let names: Vec<&str> = ranked.iter().map(|c| c.hit.relative_path.as_str()).collect();
    assert_eq!(names, vec!["abc", "éé"]);
}

#[test]
fn rank_keeps_the_order_of_full_ties() {
    let mut first = scored("same", 5);
    first.hit.path = "first".to_string();
    let mut second = scored("same", 5);
    second.hit.path = "second".to_string();
    let ranked = rank(vec![first, scored("other", 9), second]);
    let paths: Vec<&str> = ranked.iter().map(|c| c.hit.path.as_str()).collect();
    assert_eq!(paths, vec!["/r/other", "first", "second"]);
}

#[test]
fn rank_agrees_with_a_stable_sort() {
    let input: Vec<ScoredFileHit> = [
        ("src/a.rs", 3), ("b.rs", 7), ("src/b.rs", 3), ("a.rs", 7), ("z", -4), ("src/a.rs", 3),
        ("é.rs", 7), ("longer/path/x.rs", 12), ("y", -4), ("", 0), ("b.rs", 8),
    ]
    .iter()
    .map(|(p, s)| scored(p, *s))
    .collect();
    let mut expected = input.clone();
    expected.sort_by(|a, b| {
        b.score
            .cmp(&a.score)
            .then(a.hit.relative_path.len().cmp(&b.hit.relative_path.len()))
            .then(a.hit.relative_path.cmp(&b.hit.relative_path))
    });
    assert_eq!(rank(input), expected);
}

#[test]
fn rank_of_nothing_is_nothing() {
    assert!(rank(Vec::new()).is_empty());
}

#[test]
fn outranks_is_strict() {
    assert!(outranks(&scored("a", 2), &scored("a", 1)));
    assert!(!outranks(&scored("a", 1), &scored("a", 2)));
    assert!(!outranks(&scored("a", 1), &scored("a", 1)));
    assert!(outranks(&scored("a", 1), &scored("ab", 1)));
    assert!(outranks(&scored("ab", 1), &scored("ac", 1)));
}

#[test]
fn byte_order_is_lexicographic() {
    assert!(lexicographically_before(b"abc", b"abd"));
    assert!(lexicographically_before(b"ab", b"abc"));
    assert!(lexicographically_before(b"", b"a"));
    assert!(!lexicographically_before(b"abc", b"abc"));
    assert!(!lexicographically_before(b"b", b"abc"));
    assert!(!lexicographically_before(b"", b""));
    for (a, b) in [("a", "b"), ("ab", "a"), ("é", "z"), ("Z", "a"), ("", "")] {
        assert_eq!(lexicographically_before(a.as_bytes(), b.as_bytes()), a < b);
    }
}

#[test]
fn response_root_uses_forward_slashes() {
    let tree: Tree = vec![];
    let response = search(&tree, "C:\\proj", None, None);
    assert_eq!(response.root, "C:/proj");
    assert_eq!(response.count, 0);
    assert!(response.files.is_empty());
}

#[test]
fn extension_is_lowercased() {
    let tree: Tree = vec![("/r", vec![file("Photo.JPG"), file("notes")])];
    let response = search(&tree, "/r", None, None);
    assert_eq!(response.files[0].extension, Some("jpg".to_string()));
    assert_eq!(response.files[1].extension, None);
}
