//! The traversal engine, driven over synthetic trees: the driver looks each
//! queued path up in a fixed table and reports what it "saw" there.

use find::{EntryInfo, FindError, Finder};

enum Node {
    Dir(Vec<&'static str>),
    File(u64),
    FileNoSize,
    Odd,
}

fn run_find(
    finder: Finder,
    depth: u32,
    tree: &[(&'static str, Node)],
) -> Result<Vec<String>, FindError> {
    let root = finder.root().clone();
    let root_exists = tree.iter().any(|(p, _)| *p == root.as_str());
    let mut t = finder.start_find(depth, root_exists)?;
    while let Some(path) = t.next_path() {
        let info = match tree.iter().find(|(p, _)| *p == path.as_str()) {
            Some((_, Node::Dir(children))) => {
                EntryInfo::Directory(children.iter().map(|c| c.to_string()).collect())
            }
            Some((_, Node::File(size))) => EntryInfo::File(Some(*size)),
            Some((_, Node::FileNoSize)) => EntryInfo::File(None),
            Some((_, Node::Odd)) | None => EntryInfo::Other,
        };
        t.process(info);
    }
    Ok(t.into_results())
}

fn sample_src() -> Vec<(&'static str, Node)> {
    vec![
        ("src", Node::Dir(vec!["src/lib.rs", "src/main.rs", "src/notes.txt"])),
        ("src/lib.rs", Node::File(500)),
        ("src/main.rs", Node::File(300)),
        ("src/notes.txt", Node::File(50)),
    ]
}

#[test]
fn missing_root_is_root_not_found() {
    let r = run_find(Finder::new("missing_dir".to_string()), 0, &sample_src());
    assert!(matches!(r, Err(FindError::RootNotFound)));
}

#[test]
fn missing_root_reported_before_any_step() {
    let r = Finder::new("missing_dir".to_string()).start_find(0, false);
    assert!(matches!(r, Err(FindError::RootNotFound)));
}

#[test]
fn depth_zero_sees_only_direct_children() {
    let tree = vec![
        ("root", Node::Dir(vec!["root/a", "root/f.txt"])),
        ("root/a", Node::Dir(vec!["root/a/b"])),
        ("root/a/b", Node::Dir(vec!["root/a/b/file.txt"])),
        ("root/a/b/file.txt", Node::File(1)),
        ("root/f.txt", Node::File(1)),
    ];
    let found = run_find(Finder::new("root".to_string()), 0, &tree).unwrap();
    assert_eq!(found, vec!["root/f.txt".to_string()]);
}

#[test]
fn depth_one_reaches_one_level_deeper() {
    let tree = vec![
        ("root", Node::Dir(vec!["root/a", "root/f.txt"])),
        ("root/a", Node::Dir(vec!["root/a/b", "root/a/c.txt"])),
        ("root/a/b", Node::Dir(vec!["root/a/b/file.txt"])),
        ("root/a/b/file.txt", Node::File(1)),
        ("root/a/c.txt", Node::File(1)),
        ("root/f.txt", Node::File(1)),
    ];
    let found = run_find(Finder::new("root".to_string()), 1, &tree).unwrap();
    assert_eq!(found, vec!["root/f.txt".to_string(), "root/a/c.txt".to_string()]);
}

#[test]
fn no_filters_returns_every_file_in_reach() {
    let found = run_find(Finder::new("src".to_string()), 0, &sample_src()).unwrap();
    assert_eq!(
        found,
        vec![
            "src/lib.rs".to_string(),
            "src/main.rs".to_string(),
            "src/notes.txt".to_string(),
        ],
    );
}

#[test]
fn extension_and_size_narrow_to_lib() {
    let finder = Finder::new("src".to_string())
        .has_extension(".rs".to_string())
        .size_greater_than_or_eq(400);
    let found = run_find(finder, 0, &sample_src()).unwrap();
    assert_eq!(found, vec!["src/lib.rs".to_string()]);
}

#[test]
fn regex_narrows_to_lib() {
    let finder = Finder::new("src".to_string())
        .try_matches_regex("^lib")
        .unwrap();
    let found = run_find(finder, 0, &sample_src()).unwrap();
    assert_eq!(found, vec!["src/lib.rs".to_string()]);
}

#[test]
fn odd_entries_are_skipped() {
    let tree = vec![
        ("root", Node::Dir(vec!["root/link", "root/f.txt"])),
        ("root/link", Node::Odd),
        ("root/f.txt", Node::File(1)),
    ];
    let found = run_find(Finder::new("root".to_string()), 3, &tree).unwrap();
    assert_eq!(found, vec!["root/f.txt".to_string()]);
}

#[test]
fn root_may_itself_be_a_file() {
    let tree = vec![("foo.txt", Node::File(5))];
    let found = run_find(Finder::new("foo.txt".to_string()), 0, &tree).unwrap();
    assert_eq!(found, vec!["foo.txt".to_string()]);
}

#[test]
fn file_without_readable_size_fails_size_predicates_only() {
    let tree = vec![
        ("root", Node::Dir(vec!["root/a.rs", "root/b.rs"])),
        ("root/a.rs", Node::File(10)),
        ("root/b.rs", Node::FileNoSize),
    ];
    let sized = Finder::new("root".to_string()).size_less_than_or_eq(100);
    let found = run_find(sized, 0, &tree).unwrap();
    assert_eq!(found, vec!["root/a.rs".to_string()]);

    let unsized_ok = Finder::new("root".to_string()).has_extension(".rs".to_string());
    let found = run_find(unsized_ok, 0, &tree).unwrap();
    assert_eq!(found, vec!["root/a.rs".to_string(), "root/b.rs".to_string()]);
}

#[test]
fn process_reports_each_match_as_it_is_found() {
    let finder = Finder::new("src".to_string()).has_extension(".rs".to_string());
    let tree = sample_src();
    let root = finder.root().clone();
    let root_exists = tree.iter().any(|(p, _)| *p == root.as_str());
    let mut t = finder.start_find(0, root_exists).unwrap();
    let mut printed: Vec<String> = Vec::new();
    while let Some(path) = t.next_path() {
        let info = match tree.iter().find(|(p, _)| *p == path.as_str()) {
            Some((_, Node::Dir(children))) => {
                EntryInfo::Directory(children.iter().map(|c| c.to_string()).collect())
            }
            Some((_, Node::File(size))) => EntryInfo::File(Some(*size)),
            Some((_, Node::FileNoSize)) => EntryInfo::File(None),
            Some((_, Node::Odd)) | None => EntryInfo::Other,
        };
        if t.process(info) {
            printed.push(path);
        }
    }
    assert_eq!(printed, t.into_results());
    assert_eq!(printed, vec!["src/lib.rs".to_string(), "src/main.rs".to_string()]);
}

#[test]
fn the_search_starts_at_the_root() {
    let finder = Finder::new("src".to_string());
    assert_eq!(finder.root(), "src");
    let t = finder.start_find(7, true).unwrap();
    assert!(!t.done());
    assert_eq!(t.next_path(), Some("src".to_string()));
}

#[test]
fn matches_regex_behaves_like_its_checked_form() {
    let finder = Finder::new("src".to_string()).matches_regex("\\.rs$");
    let found = run_find(finder, 0, &sample_src()).unwrap();
    assert_eq!(found, vec!["src/lib.rs".to_string(), "src/main.rs".to_string()]);
}

#[test]
fn directories_are_never_results() {
    let tree = vec![
        ("root", Node::Dir(vec!["root/sub"])),
        ("root/sub", Node::Dir(vec![])),
    ];
    let found = run_find(Finder::new("root".to_string()), 5, &tree).unwrap();
    assert!(found.is_empty());
}
