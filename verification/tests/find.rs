use fsfind::entry::{DirectoryEntry, EntryKind};
use fsfind::find::{check_flags, compile_patterns, find, plan_searches, FindArgs, RequestError, SearchPlan};
use fsfind::pattern::Pattern;
use fsfind::permission::{PermissionFilter, PermissionTest};
use fsfind::request::SearchRequest;
use fsfind::search::search;
use fsfind::tree::{Listing, Node, Tree};

fn no_args() -> FindArgs {
    FindArgs {
        directories: vec![],
        patterns: vec![],
        output_file: None,
        file_size: None,
        all: false,
        nesting_depth: None,
        file_type: None,
        permissions: None,
    }
}

fn texts(list: &[&str]) -> Vec<String> {
    list.iter().map(|text| text.to_string()).collect()
}

fn plain(root: &str) -> SearchRequest {
    SearchRequest::new(vec![root.to_string()])
}

fn file(path: &str, size: u64) -> Node {
    Node {
        entry: DirectoryEntry {
            path: path.to_string(),
            name: path.rsplit('/').next().unwrap().to_string(),
            kind: EntryKind::File,
            size,
            permissions: 0o644,
        },
        listing: Listing::Entries(vec![]),
    }
}

fn dir(path: &str, children: Vec<Node>) -> Node {
    Node {
        entry: DirectoryEntry {
            path: path.to_string(),
            name: path.rsplit('/').next().unwrap().to_string(),
            kind: EntryKind::Directory,
            size: 0,
            permissions: 0o755,
        },
        listing: Listing::Entries(children),
    }
}

fn run(plan: SearchPlan, snapshot: &Vec<Tree>) -> Vec<String> {
    let mut found = Vec::new();
    for request in plan.requests {
        found.extend(search(request, snapshot).matches);
    }
    found
}

#[test]
fn no_flags_search_the_current_directory_for_everything() {
    let plan = find("/home/me", &no_args(), false).unwrap();
    assert_eq!(plan, SearchPlan { requests: vec![plain("/home/me")], output_file: None });
}

#[test]
fn the_visibility_of_hidden_entries_goes_into_the_search() {
    let plan = find("here", &no_args(), true).unwrap();
    let mut expected = plain("here");
    expected.show_hidden = true;
    assert_eq!(plan.requests, vec![expected]);
}

#[test]
fn every_flag_reaches_the_search() {
    let mut args = no_args();
    args.directories = texts(&["src"]);
    args.patterns = texts(&["\\.rs$"]);
    args.output_file = Some("out.txt".to_string());
    args.file_size = Some(100);
    args.all = true;
    args.nesting_depth = Some(3);
    args.file_type = Some("rs".to_string());
    args.permissions = Some("+444".to_string());
    let plan = find("ignored", &args, false).unwrap();
    let expected = SearchRequest {
        roots: texts(&["src"]),
        pattern: Pattern::new("\\.rs$"),
        min_size: Some(100),
        include_directories: true,
        max_depth: Some(3),
        extension: Some("rs".to_string()),
        permission: Some(PermissionFilter { bits: 0o444, test: PermissionTest::AtLeast }),
        show_hidden: false,
    };
    assert_eq!(plan.requests, vec![expected]);
    assert_eq!(plan.output_file, Some("out.txt".to_string()));
}

#[test]
fn each_directory_is_searched_for_each_pattern_in_turn() {
    let mut args = no_args();
    args.directories = texts(&["a", "b"]);
    args.patterns = texts(&["x", "y", "z"]);
    let plan = find("cwd", &args, false).unwrap();
    let described: Vec<(String, String)> = plan
        .requests
        .iter()
        .map(|request| (request.roots.join(","), request.pattern.as_ref().unwrap().as_str().to_string()))
        .collect();
    let expected: Vec<(String, String)> = [("a", "x"), ("a", "y"), ("a", "z"), ("b", "x"), ("b", "y"), ("b", "z")]
        .iter()
        .map(|(root, pattern)| (root.to_string(), pattern.to_string()))
        .collect();
    assert_eq!(described, expected);
}

#[test]
fn patterns_without_directories_search_the_current_directory() {
    let mut args = no_args();
    args.patterns = texts(&["x", "y"]);
    let plan = find("cwd", &args, false).unwrap();
    assert_eq!(plan.requests.len(), 2);
    assert_eq!(plan.requests[0].roots, texts(&["cwd"]));
    assert_eq!(plan.requests[1].roots, texts(&["cwd"]));
    assert_eq!(plan.requests[1].pattern, Pattern::new("y"));
}

#[test]
fn directories_without_patterns_are_searched_for_everything() {
    let mut args = no_args();
    args.directories = texts(&["a", "b"]);
    let plan = find("cwd", &args, false).unwrap();
    assert_eq!(plan.requests, vec![plain("a"), plain("b")]);
}

#[test]
fn a_pattern_that_is_no_regular_expression_is_a_fault() {
    let mut args = no_args();
    args.patterns = texts(&["fine", "bro(ken", "al[so"]);
    assert_eq!(find("cwd", &args, false), Err(RequestError::InvalidPattern { index: 1 }));
}

#[test]
fn a_negative_depth_is_a_fault() {
    let mut args = no_args();
    args.nesting_depth = Some(-1);
    assert_eq!(find("cwd", &args, false), Err(RequestError::NegativeDepth));
    args.nesting_depth = Some(0);
    assert_eq!(find("cwd", &args, false).unwrap().requests[0].max_depth, Some(0));
    args.nesting_depth = Some(i32::MAX);
    assert_eq!(find("cwd", &args, false).unwrap().requests[0].max_depth, Some(2147483647));
}

#[test]
fn an_empty_type_is_a_fault() {
    let mut args = no_args();
    args.file_type = Some(String::new());
    assert_eq!(find("cwd", &args, false), Err(RequestError::EmptyType));
}

#[test]
fn a_permission_descriptor_that_is_none_is_a_fault() {
    let mut args = no_args();
    args.permissions = Some("rw-r--r--".to_string());
    assert_eq!(find("cwd", &args, false), Err(RequestError::InvalidPermissions));
}

#[test]
fn faults_are_reported_in_a_fixed_order() {
    let mut args = no_args();
    args.permissions = Some("9".to_string());
    args.file_type = Some(String::new());
    assert_eq!(find("cwd", &args, false), Err(RequestError::EmptyType));
    args.nesting_depth = Some(-5);
    assert_eq!(find("cwd", &args, false), Err(RequestError::NegativeDepth));
    args.patterns = texts(&["("]);
    assert_eq!(find("cwd", &args, false), Err(RequestError::InvalidPattern { index: 0 }));
}

#[test]
fn every_fault_has_its_message() {
    assert_eq!(RequestError::InvalidPattern { index: 3 }.message(), "The pattern is not a valid regular expression");
    assert_eq!(RequestError::NegativeDepth.message(), "The depth must not be negative");
    assert_eq!(RequestError::EmptyType.message(), "The file type must not be empty");
    assert_eq!(
        RequestError::InvalidPermissions.message(),
        "The permissions must be one to four octal digits, with or without a + before them"
    );
}

#[test]
fn patterns_are_checked_one_by_one() {
    let kept = compile_patterns(&texts(&["a", "b+"])).unwrap();
    assert_eq!(kept.len(), 2);
    assert_eq!(kept[1].as_str(), "b+");
    assert_eq!(compile_patterns(&texts(&["a", "b+", "+"])), Err(2));
    assert_eq!(compile_patterns(&vec![]), Ok(vec![]));
}

#[test]
fn a_find_for_text_files_finds_both_and_not_their_directory() {
    let snapshot = vec![Tree {
        root: "root".to_string(),
        listing: Listing::Entries(vec![file("root/a.txt", 1), dir("root/sub", vec![file("root/sub/b.txt", 1)])]),
    }];
    let mut args = no_args();
    args.patterns = texts(&[".txt$"]);
    let plan = find("root", &args, false).unwrap();
    assert_eq!(run(plan, &snapshot), texts(&["root/a.txt", "root/sub/b.txt"]));
}

#[test]
fn a_find_with_all_finds_the_directory() {
    let snapshot = vec![Tree {
        root: "root".to_string(),
        listing: Listing::Entries(vec![file("root/a.txt", 1), dir("root/sub", vec![file("root/sub/b.txt", 1)])]),
    }];
    let mut args = no_args();
    args.patterns = texts(&["sub$"]);
    args.all = true;
    let plan = find("root", &args, false).unwrap();
    assert_eq!(run(plan, &snapshot), texts(&["root/sub"]));
}

#[test]
fn a_find_leaves_hidden_directories_alone() {
    let snapshot = vec![Tree {
        root: "root".to_string(),
        listing: Listing::Entries(vec![dir("root/.hidden", vec![file("root/.hidden/c.txt", 1)])]),
    }];
    let mut args = no_args();
    args.patterns = texts(&[".txt$"]);
    let plan = find("root", &args, false).unwrap();
    assert!(run(plan, &snapshot).is_empty());
    let shown = find("root", &args, true).unwrap();
    assert_eq!(run(shown, &snapshot), texts(&["root/.hidden/c.txt"]));
}

#[test]
fn a_find_with_a_size_leaves_small_files_out() {
    let snapshot = vec![Tree {
        root: "root".to_string(),
        listing: Listing::Entries(vec![file("root/small", 50), file("root/large", 150)]),
    }];
    let mut args = no_args();
    args.file_size = Some(100);
    let plan = find("root", &args, false).unwrap();
    assert_eq!(run(plan, &snapshot), texts(&["root/large"]));
}

#[test]
fn a_find_for_two_patterns_walks_the_tree_twice() {
    let snapshot = vec![Tree {
        root: "root".to_string(),
        listing: Listing::Entries(vec![file("root/a.txt", 1), file("root/b.md", 1)]),
    }];
    let mut args = no_args();
    args.patterns = texts(&["md$", "root"]);
    let plan = find("root", &args, false).unwrap();
    assert_eq!(run(plan, &snapshot), texts(&["root/b.md", "root/a.txt", "root/b.md"]));
}

#[test]
fn flags_without_fault_pass_the_check() {
    assert_eq!(check_flags(&no_args()), None);
    let mut args = no_args();
    args.nesting_depth = Some(0);
    args.file_type = Some("rs".to_string());
    args.permissions = Some("+7".to_string());
    args.patterns = texts(&["("]);
    assert_eq!(check_flags(&args), None);
}

#[test]
fn the_check_of_the_flags_names_the_first_fault() {
    let mut args = no_args();
    args.permissions = Some("888".to_string());
    assert_eq!(check_flags(&args), Some(RequestError::InvalidPermissions));
    args.file_type = Some(String::new());
    assert_eq!(check_flags(&args), Some(RequestError::EmptyType));
    args.nesting_depth = Some(i32::MIN);
    assert_eq!(check_flags(&args), Some(RequestError::NegativeDepth));
}

#[test]
fn searches_are_planned_with_the_patterns_that_are_handed_in() {
    let mut args = no_args();
    args.directories = texts(&["a", "b"]);
    args.patterns = texts(&["not", "looked", "at"]);
    let patterns = vec![Pattern::new("x").unwrap(), Pattern::new("y").unwrap()];
    let plan = plan_searches("cwd", &args, &patterns, true).unwrap();
    let described: Vec<(&str, &str)> = plan
        .requests
        .iter()
        .map(|request| (request.roots[0].as_str(), request.pattern.as_ref().unwrap().as_str()))
        .collect();
    assert_eq!(described, vec![("a", "x"), ("a", "y"), ("b", "x"), ("b", "y")]);
    assert!(plan.requests.iter().all(|request| request.show_hidden && request.roots.len() == 1));
}

#[test]
fn searches_without_patterns_are_planned_for_everything() {
    let plan = plan_searches("cwd", &no_args(), &vec![], false).unwrap();
    assert_eq!(plan.requests, vec![plain("cwd")]);
}

#[test]
fn flags_at_fault_plan_no_search() {
    let mut args = no_args();
    args.nesting_depth = Some(-2);
    assert_eq!(plan_searches("cwd", &args, &vec![], false), Err(RequestError::NegativeDepth));
}
