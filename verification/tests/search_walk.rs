use wine_winget::listing::{DirEntryInfo, EntryKind};
use wine_winget::search::{SearchHit, SearchTodo, SearchWalk};

fn entry(parent: &str, name: &str, kind: EntryKind) -> DirEntryInfo {
    DirEntryInfo { path: format!("{parent}/{name}"), name: name.to_string(), kind }
}

fn todo(path: &str, name: &str, depth: u64, match_all: bool) -> SearchTodo {
    SearchTodo { path: path.to_string(), name: name.to_string(), depth, match_all }
}

#[test]
fn search_starts_at_manifests() {
    let mut walk = SearchWalk::new("LLVM", "/repo/manifests");
    assert_eq!(walk.needle, "llvm");
    let root = walk.next_dir().unwrap();
    assert_eq!(root.path, "/repo/manifests");
    assert_eq!(root.depth, 0);
    assert!(walk.next_dir().is_none());
}

#[test]
fn letters_are_descended_and_files_ignored() {
    let mut walk = SearchWalk::new("llvm", "/repo/manifests");
    let root = walk.next_dir().unwrap();
    let hits = walk.visit(
        &root,
        &vec![
            entry("/repo/manifests", "k", EntryKind::Dir),
            entry("/repo/manifests", "l", EntryKind::Dir),
            entry("/repo/manifests", "README", EntryKind::File),
        ],
    );
    assert!(hits.is_empty());
    assert_eq!(walk.todos.len(), 2);
    let next = walk.next_dir().unwrap();
    assert_eq!(next.name, "l");
    assert_eq!(next.depth, 1);
    assert!(!next.match_all);
}

#[test]
fn matching_vendor_is_reported_and_its_packages_too() {
    let mut walk = SearchWalk::new("LLVM", "/repo/manifests");
    let letter = todo("/repo/manifests/l", "l", 1, false);
    let hits = walk.visit(
        &letter,
        &vec![
            entry("/repo/manifests/l", "LLVM", EntryKind::Dir),
            entry("/repo/manifests/l", "Lenovo", EntryKind::Dir),
        ],
    );
    assert_eq!(hits.len(), 1);
    assert!(matches!(&hits[0], SearchHit::Vendor { name } if name == "LLVM"));
    // the start directory, the matching vendor (matched whole) and the other vendor
    assert_eq!(walk.todos.len(), 3);
    assert!(walk.todos[1].match_all && walk.todos[1].depth == 2);
    assert!(!walk.todos[2].match_all && walk.todos[2].depth == 2);

    let vendor = todo("/repo/manifests/l/LLVM", "LLVM", 2, true);
    let hits = walk.visit(&vendor, &vec![entry("/repo/manifests/l/LLVM", "clang", EntryKind::Dir)]);
    assert_eq!(hits.len(), 1);
    match &hits[0] {
        SearchHit::Package { vendor, name } => {
            assert_eq!(vendor, "LLVM");
            assert_eq!(name, "clang");
        }
        other => panic!("unexpected {other:?}"),
    }
}

#[test]
fn package_matching_by_its_own_name() {
    let mut walk = SearchWalk::new("code", "/r/manifests");
    let vendor = todo("/r/manifests/m/Microsoft", "Microsoft", 2, false);
    let hits = walk.visit(
        &vendor,
        &vec![
            entry("/r/manifests/m/Microsoft", "VisualStudioCode", EntryKind::Dir),
            entry("/r/manifests/m/Microsoft", "Edge", EntryKind::Dir),
        ],
    );
    assert_eq!(hits.len(), 1);
    assert!(matches!(&hits[0], SearchHit::Package { name, .. } if name == "VisualStudioCode"));
}

#[test]
fn deeper_directories_are_skipped() {
    let mut walk = SearchWalk::new("x", "/r/manifests");
    let _ = walk.next_dir();
    walk.todos.push(todo("/r/manifests/a/b/c", "c", 3, true));
    walk.todos.push(todo("/r/manifests/a/b/d", "d", 3, false));
    assert!(walk.next_dir().is_none());
    assert!(walk.todos.is_empty());
}

#[test]
fn letter_directories_are_always_descended() {
    let mut walk = SearchWalk::new("l", "/r/manifests");
    let root = walk.next_dir().unwrap();
    let hits = walk.visit(&root, &vec![entry("/r/manifests", "l", EntryKind::Dir)]);
    assert!(hits.is_empty());
    assert_eq!(walk.todos.len(), 1);
    assert_eq!(walk.todos[0].depth, 1);
    assert!(!walk.todos[0].match_all);
}

/// Runs a whole search over a repository given as (directory, subdirectories) pairs.
fn run_search(text: &str, tree: &[(&str, &[&str])]) -> Vec<String> {
    run_search_at("/r/manifests", text, tree)
}

fn run_search_at(root: &str, text: &str, tree: &[(&str, &[&str])]) -> Vec<String> {
    let mut walk = SearchWalk::new(text, root);
    let mut lines = Vec::new();
    while let Some(dir) = walk.next_dir() {
        let children: &[&str] = tree
            .iter()
            .find(|(d, _)| *d == dir.path)
            .map(|(_, c)| *c)
            .unwrap_or(&[]);
        let entries: Vec<DirEntryInfo> =
            children.iter().map(|c| entry(&dir.path, c, EntryKind::Dir)).collect();
        for hit in walk.visit(&dir, &entries) {
            match hit {
                SearchHit::Vendor { name } => lines.push(format!("Found vendor: {name}")),
                SearchHit::Package { vendor, name } => lines.push(format!("Found package: {vendor}.{name}")),
            }
        }
    }
    lines
}

const LLVM_REPO: &[(&str, &[&str])] = &[
    ("/r/manifests", &["l"]),
    ("/r/manifests/l", &["LLVM"]),
    ("/r/manifests/l/LLVM", &["LLVM"]),
    ("/r/manifests/l/LLVM/LLVM", &["18.1.8"]),
];

#[test]
fn search_finds_vendor_and_package_by_part_of_name() {
    assert_eq!(run_search("l", LLVM_REPO), vec!["Found vendor: LLVM", "Found package: LLVM.LLVM"]);
    assert_eq!(run_search("llvm", LLVM_REPO), vec!["Found vendor: LLVM", "Found package: LLVM.LLVM"]);
}

#[test]
fn search_ignores_case_of_text() {
    assert_eq!(run_search("LlVm", LLVM_REPO), run_search("llvm", LLVM_REPO));
}

#[test]
fn search_finds_package_of_non_matching_vendor() {
    let repo: &[(&str, &[&str])] = &[
        ("/r/manifests", &["m"]),
        ("/r/manifests/m", &["Microsoft"]),
        ("/r/manifests/m/Microsoft", &["VisualStudioCode", "Edge"]),
    ];
    assert_eq!(run_search("code", repo), vec!["Found package: Microsoft.VisualStudioCode"]);
    assert!(run_search("zzz", repo).is_empty());
}

#[test]
fn search_matches_path_below_manifests() {
    assert_eq!(run_search("llvm/llvm", LLVM_REPO), vec!["Found package: LLVM.LLVM"]);
    assert_eq!(run_search("l/ll", LLVM_REPO), vec!["Found vendor: LLVM", "Found package: LLVM.LLVM"]);
}

#[test]
fn repository_path_does_not_match() {
    let repo: &[(&str, &[&str])] = &[
        ("/home/repo/manifests", &["m"]),
        ("/home/repo/manifests/m", &["Microsoft"]),
        ("/home/repo/manifests/m/Microsoft", &["Edge"]),
    ];
    assert!(run_search_at("/home/repo/manifests", "repo", repo).is_empty());
    assert!(run_search_at("/home/repo/manifests", "manifests", repo).is_empty());
}
