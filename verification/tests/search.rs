use fsfind::entry::{DirectoryEntry, EntryKind};
use fsfind::pattern::Pattern;
use fsfind::permission::{PermissionFilter, PermissionTest};
use fsfind::report::SearchReport;
use fsfind::request::SearchRequest;
use fsfind::search::search;
use fsfind::tree::{Listing, Node, Tree};

fn name_of(path: &str) -> String {
    path.rsplit('/').next().unwrap().to_string()
}

fn file(path: &str, size: u64) -> Node {
    Node {
        entry: DirectoryEntry {
            path: path.to_string(),
            name: name_of(path),
            kind: EntryKind::File,
            size,
            permissions: 0o644,
        },
        listing: Listing::Entries(vec![]),
    }
}

fn file_with_mode(path: &str, permissions: u32) -> Node {
    let mut node = file(path, 1);
    node.entry.permissions = permissions;
    node
}

fn dir(path: &str, children: Vec<Node>) -> Node {
    Node {
        entry: DirectoryEntry {
            path: path.to_string(),
            name: name_of(path),
            kind: EntryKind::Directory,
            size: 0,
            permissions: 0o755,
        },
        listing: Listing::Entries(children),
    }
}

fn locked_dir(path: &str) -> Node {
    let mut node = dir(path, vec![]);
    node.listing = Listing::Unreadable;
    node
}

fn link(path: &str) -> Node {
    let mut node = file(path, 0);
    node.entry.kind = EntryKind::Other;
    node
}

fn tree(root: &str, children: Vec<Node>) -> Tree {
    Tree { root: root.to_string(), listing: Listing::Entries(children) }
}

fn request(root: &str, pattern: Option<&str>) -> SearchRequest {
    let mut request = SearchRequest::new(vec![root.to_string()]);
    request.pattern = pattern.map(|source| Pattern::new(source).unwrap());
    request
}

fn paths(list: &[&str]) -> Vec<String> {
    list.iter().map(|path| path.to_string()).collect()
}

fn two_files() -> Vec<Tree> {
    vec![tree("root", vec![file("root/a.txt", 10), dir("root/sub", vec![file("root/sub/b.txt", 20)])])]
}

fn deep() -> Vec<Tree> {
    vec![tree(
        "top",
        vec![
            file("top/f0", 1),
            dir(
                "top/d1",
                vec![
                    file("top/d1/f1", 1),
                    dir("top/d1/d2", vec![file("top/d1/d2/f2", 1), dir("top/d1/d2/d3", vec![file("top/d1/d2/d3/f3", 1)])]),
                ],
            ),
            file("top/g0", 1),
        ],
    )]
}

#[test]
fn text_files_are_found_and_their_directory_is_not() {
    let report = search(request("root", Some(".txt$")), &two_files());
    assert_eq!(report.matches, paths(&["root/a.txt", "root/sub/b.txt"]));
    assert!(report.failures.is_empty());
}

#[test]
fn with_directories_included_the_directory_is_found() {
    let mut wanted = request("root", Some("sub$"));
    wanted.include_directories = true;
    let report = search(wanted, &two_files());
    assert_eq!(report.matches, paths(&["root/sub"]));
}

#[test]
fn a_pattern_is_tried_on_the_whole_path() {
    let mut wanted = request("root", Some("sub"));
    wanted.include_directories = true;
    let report = search(wanted, &two_files());
    assert_eq!(report.matches, paths(&["root/sub", "root/sub/b.txt"]));
}

#[test]
fn without_directories_included_only_files_are_found() {
    let report = search(request("root", Some("sub")), &two_files());
    assert_eq!(report.matches, paths(&["root/sub/b.txt"]));
}

#[test]
fn hidden_directories_are_not_entered() {
    let snapshot = vec![tree(
        "root",
        vec![dir("root/.hidden", vec![file("root/.hidden/c.txt", 5)]), file("root/d.txt", 5), file("root/.e.txt", 5)],
    )];
    let report = search(request("root", Some(".txt$")), &snapshot);
    assert_eq!(report.matches, paths(&["root/d.txt"]));
}

#[test]
fn hidden_entries_are_found_when_shown() {
    let snapshot = vec![tree(
        "root",
        vec![dir("root/.hidden", vec![file("root/.hidden/c.txt", 5)]), file("root/d.txt", 5), file("root/.e.txt", 5)],
    )];
    let mut wanted = request("root", Some(".txt$"));
    wanted.show_hidden = true;
    let report = search(wanted, &snapshot);
    assert_eq!(report.matches, paths(&["root/.hidden/c.txt", "root/d.txt", "root/.e.txt"]));
}

#[test]
fn small_files_are_left_out() {
    let snapshot = vec![tree("root", vec![file("root/small", 50), file("root/large", 150)])];
    let mut wanted = request("root", None);
    wanted.min_size = Some(100);
    let report = search(wanted, &snapshot);
    assert_eq!(report.matches, paths(&["root/large"]));
}

#[test]
fn a_file_of_just_the_least_size_is_found() {
    let snapshot = vec![tree("root", vec![file("root/exact", 100), file("root/below", 99)])];
    let mut wanted = request("root", None);
    wanted.min_size = Some(100);
    let report = search(wanted, &snapshot);
    assert_eq!(report.matches, paths(&["root/exact"]));
}

#[test]
fn directories_are_exempt_from_the_size_filter() {
    let snapshot = vec![tree("root", vec![dir("root/box", vec![file("root/box/tiny", 1)]), file("root/big", 500)])];
    let mut wanted = request("root", None);
    wanted.min_size = Some(100);
    wanted.include_directories = true;
    let report = search(wanted, &snapshot);
    assert_eq!(report.matches, paths(&["root/box", "root/big"]));
}

#[test]
fn no_pattern_matches_everything() {
    let report = search(request("root", None), &two_files());
    assert_eq!(report.matches, paths(&["root/a.txt", "root/sub/b.txt"]));
}

#[test]
fn results_come_in_pre_order() {
    let mut wanted = request("top", None);
    wanted.include_directories = true;
    let report = search(wanted, &deep());
    assert_eq!(
        report.matches,
        paths(&[
            "top/f0",
            "top/d1",
            "top/d1/f1",
            "top/d1/d2",
            "top/d1/d2/f2",
            "top/d1/d2/d3",
            "top/d1/d2/d3/f3",
            "top/g0",
        ])
    );
}

#[test]
fn depth_zero_lists_the_root_only() {
    let mut wanted = request("top", None);
    wanted.include_directories = true;
    wanted.max_depth = Some(0);
    let report = search(wanted, &deep());
    assert_eq!(report.matches, paths(&["top/f0", "top/d1", "top/g0"]));
}

#[test]
fn depth_one_goes_one_level_down() {
    let mut wanted = request("top", None);
    wanted.max_depth = Some(1);
    let report = search(wanted, &deep());
    assert_eq!(report.matches, paths(&["top/f0", "top/d1/f1", "top/g0"]));
}

#[test]
fn depth_two_goes_two_levels_down() {
    let mut wanted = request("top", None);
    wanted.max_depth = Some(2);
    let report = search(wanted, &deep());
    assert_eq!(report.matches, paths(&["top/f0", "top/d1/f1", "top/d1/d2/f2", "top/g0"]));
}

#[test]
fn a_generous_depth_changes_nothing() {
    let mut limited = request("top", None);
    limited.max_depth = Some(40);
    let unlimited = request("top", None);
    assert_eq!(search(limited, &deep()), search(unlimited, &deep()));
}

#[test]
fn the_same_search_gives_the_same_results_again() {
    let first = search(request("top", Some("f")), &deep());
    let second = search(request("top", Some("f")), &deep());
    assert_eq!(first, second);
    assert_eq!(first.matches, paths(&["top/f0", "top/d1/f1", "top/d1/d2/f2", "top/d1/d2/d3/f3"]));
}

#[test]
fn an_unreadable_directory_spares_its_siblings() {
    let snapshot = vec![tree(
        "root",
        vec![
            dir("root/a", vec![file("root/a/one", 1)]),
            locked_dir("root/locked"),
            dir("root/z", vec![file("root/z/two", 1)]),
        ],
    )];
    let report = search(request("root", None), &snapshot);
    assert_eq!(report.matches, paths(&["root/a/one", "root/z/two"]));
    assert_eq!(report.failures, paths(&["root/locked"]));
}

#[test]
fn an_unreadable_directory_is_itself_a_result() {
    let snapshot = vec![tree("root", vec![locked_dir("root/locked"), file("root/after", 1)])];
    let mut wanted = request("root", None);
    wanted.include_directories = true;
    let report = search(wanted, &snapshot);
    assert_eq!(report.matches, paths(&["root/locked", "root/after"]));
    assert_eq!(report.failures, paths(&["root/locked"]));
}

#[test]
fn a_directory_beyond_the_depth_is_not_opened() {
    let snapshot = vec![tree("root", vec![locked_dir("root/locked"), file("root/after", 1)])];
    let mut wanted = request("root", None);
    wanted.max_depth = Some(0);
    let report = search(wanted, &snapshot);
    assert_eq!(report.matches, paths(&["root/after"]));
    assert!(report.failures.is_empty());
}

#[test]
fn a_hidden_unreadable_directory_is_no_failure() {
    let snapshot = vec![tree("root", vec![locked_dir("root/.locked"), file("root/after", 1)])];
    let report = search(request("root", None), &snapshot);
    assert_eq!(report.matches, paths(&["root/after"]));
    assert!(report.failures.is_empty());
}

#[test]
fn a_root_that_is_unknown_fails_alone() {
    let mut wanted = request("elsewhere", Some(".txt$"));
    wanted.roots.push("root".to_string());
    let report = search(wanted, &two_files());
    assert_eq!(report.matches, paths(&["root/a.txt", "root/sub/b.txt"]));
    assert_eq!(report.failures, paths(&["elsewhere"]));
}

#[test]
fn an_unreadable_root_fails() {
    let snapshot = vec![Tree { root: "root".to_string(), listing: Listing::Unreadable }];
    let report = search(request("root", None), &snapshot);
    assert_eq!(report, SearchReport { matches: vec![], failures: paths(&["root"]) });
}

#[test]
fn roots_are_searched_in_the_order_of_the_request() {
    let snapshot = vec![tree("one", vec![file("one/x", 1)]), tree("two", vec![file("two/y", 1)])];
    let mut wanted = request("two", None);
    wanted.roots.push("one".to_string());
    wanted.roots.push("two".to_string());
    let report = search(wanted, &snapshot);
    assert_eq!(report.matches, paths(&["two/y", "one/x", "two/y"]));
}

#[test]
fn the_first_tree_of_a_root_counts() {
    let snapshot = vec![tree("one", vec![file("one/x", 1)]), tree("one", vec![file("one/other", 1)])];
    let report = search(request("one", None), &snapshot);
    assert_eq!(report.matches, paths(&["one/x"]));
}

#[test]
fn no_roots_give_no_results() {
    let report = search(SearchRequest::new(vec![]), &two_files());
    assert_eq!(report, SearchReport { matches: vec![], failures: vec![] });
}

#[test]
fn what_is_neither_file_nor_directory_is_never_a_result() {
    let snapshot = vec![tree("root", vec![link("root/link"), file("root/file", 1)])];
    let mut wanted = request("root", None);
    wanted.include_directories = true;
    let report = search(wanted, &snapshot);
    assert_eq!(report.matches, paths(&["root/file"]));
}

#[test]
fn the_extension_filter_keeps_files_of_that_type() {
    let snapshot = vec![tree(
        "root",
        vec![
            file("root/a.txt", 1),
            file("root/b.rs", 1),
            file("root/txt", 1),
            file("root/.txt", 1),
            dir("root/docs", vec![file("root/docs/c.txt", 1), file("root/docs/d.md", 1)]),
        ],
    )];
    let mut wanted = request("root", None);
    wanted.extension = Some("txt".to_string());
    wanted.show_hidden = true;
    let report = search(wanted, &snapshot);
    assert_eq!(report.matches, paths(&["root/a.txt", "root/docs/c.txt"]));
}

#[test]
fn directories_are_exempt_from_the_extension_filter() {
    let snapshot = vec![tree("root", vec![dir("root/docs", vec![file("root/docs/c.txt", 1), file("root/docs/d.md", 1)])])];
    let mut wanted = request("root", None);
    wanted.extension = Some("txt".to_string());
    wanted.include_directories = true;
    let report = search(wanted, &snapshot);
    assert_eq!(report.matches, paths(&["root/docs", "root/docs/c.txt"]));
}

#[test]
fn exact_permissions_are_asked_for() {
    let snapshot = vec![tree(
        "root",
        vec![file_with_mode("root/plain", 0o644), file_with_mode("root/tool", 0o755), file_with_mode("root/typed", 0o100644)],
    )];
    let mut wanted = request("root", None);
    wanted.permission = Some(PermissionFilter { bits: 0o644, test: PermissionTest::Exact });
    let report = search(wanted, &snapshot);
    assert_eq!(report.matches, paths(&["root/plain", "root/typed"]));
}

#[test]
fn permissions_can_be_asked_for_as_a_minimum() {
    let snapshot = vec![tree(
        "root",
        vec![file_with_mode("root/plain", 0o644), file_with_mode("root/tool", 0o755), file_with_mode("root/mine", 0o700)],
    )];
    let mut wanted = request("root", None);
    wanted.permission = Some(PermissionFilter { bits: 0o111, test: PermissionTest::AtLeast });
    let report = search(wanted, &snapshot);
    assert_eq!(report.matches, paths(&["root/tool"]));
}

#[test]
fn permissions_apply_to_directories_too() {
    let snapshot = vec![tree("root", vec![dir("root/open", vec![file_with_mode("root/open/inner", 0o755)]), file_with_mode("root/f", 0o644)])];
    let mut wanted = request("root", None);
    wanted.include_directories = true;
    wanted.permission = Some(PermissionFilter { bits: 0o755, test: PermissionTest::Exact });
    let report = search(wanted, &snapshot);
    assert_eq!(report.matches, paths(&["root/open", "root/open/inner"]));
}

#[test]
fn a_directory_that_is_no_result_is_still_searched() {
    let report = search(request("root", Some("b")), &two_files());
    assert_eq!(report.matches, paths(&["root/sub/b.txt"]));
}

#[test]
fn every_result_matches_and_is_a_file_of_the_tree() {
    let report = search(request("top", Some("d2")), &deep());
    let files = ["top/f0", "top/d1/f1", "top/d1/d2/f2", "top/d1/d2/d3/f3", "top/g0"];
    assert_eq!(report.matches.len(), 2);
    for path in &report.matches {
        assert!(path.contains("d2"));
        assert!(files.contains(&path.as_str()));
    }
}

#[test]
fn filters_hold_together() {
    let snapshot = vec![tree(
        "root",
        vec![
            file("root/a.txt", 500),
            file("root/b.txt", 5),
            file("root/c.md", 500),
            dir("root/n", vec![file("root/n/d.txt", 500), dir("root/n/m", vec![file("root/n/m/e.txt", 500)])]),
        ],
    )];
    let mut wanted = request("root", Some("root/"));
    wanted.min_size = Some(100);
    wanted.extension = Some("txt".to_string());
    wanted.max_depth = Some(1);
    let report = search(wanted, &snapshot);
    assert_eq!(report.matches, paths(&["root/a.txt", "root/n/d.txt"]));
}
