use wine_winget::error::LookupError;
use wine_winget::listing::{
    find_sub_case_insensitive, find_subdir_case_insensitive, find_subfile_case_insensitive,
    DirEntryInfo, EntryKind,
};
use wine_winget::text::{
    chars_of, contains_chars, equals_ignore_ascii_case, first_index_of, last_index_of, str_lt,
    string_from_chars, to_ascii_lowercase, to_lower_char,
};

fn entry(name: &str, kind: EntryKind) -> DirEntryInfo {
    DirEntryInfo { path: format!("/repo/manifests/{name}"), name: name.to_string(), kind }
}

#[test]
fn lower_char_maps_only_ascii_capitals() {
    assert_eq!(to_lower_char('A'), 'a');
    assert_eq!(to_lower_char('Z'), 'z');
    assert_eq!(to_lower_char('a'), 'a');
    assert_eq!(to_lower_char('@'), '@');
    assert_eq!(to_lower_char('['), '[');
    assert_eq!(to_lower_char('Ä'), 'Ä');
}

#[test]
fn lowercase_folds_ascii_only() {
    assert_eq!(to_ascii_lowercase("LLVM.Clang-18"), "llvm.clang-18");
    assert_eq!(to_ascii_lowercase("ÄÖÜ Mix"), "ÄÖÜ mix");
    assert_eq!(to_ascii_lowercase(""), "");
    let once = to_ascii_lowercase("MiXeD");
    assert_eq!(to_ascii_lowercase(&once), once);
}

#[test]
fn equality_ignoring_case() {
    assert!(equals_ignore_ascii_case("Microsoft", "microsoft"));
    assert!(equals_ignore_ascii_case("microsoft", "MICROSOFT"));
    assert!(!equals_ignore_ascii_case("Microsoft", "Microsoft."));
    assert!(!equals_ignore_ascii_case("é", "É"));
}

#[test]
fn substring_search() {
    let hay = chars_of("/repo/manifests/l/llvm");
    assert!(contains_chars(&hay, &chars_of("llvm")));
    assert!(contains_chars(&hay, &chars_of("")));
    assert!(contains_chars(&hay, &chars_of("/repo")));
    assert!(!contains_chars(&hay, &chars_of("LLVM")));
    assert!(!contains_chars(&chars_of("ab"), &chars_of("abc")));
}

#[test]
fn first_and_last_positions() {
    let cs = chars_of("a.b.c");
    assert_eq!(first_index_of(&cs, '.'), Some(1));
    assert_eq!(last_index_of(&cs, '.'), Some(3));
    assert_eq!(first_index_of(&cs, '/'), None);
    assert_eq!(last_index_of(&cs, '/'), None);
    assert_eq!(string_from_chars(&cs, 2, 5), "b.c");
}

#[test]
fn lexicographic_order() {
    assert!(str_lt("1.0", "1.0.0"));
    assert!(!str_lt("1.0.0", "1.0"));
    assert!(str_lt("abc", "abd"));
    assert!(!str_lt("abc", "abc"));
    assert!(str_lt("", "a"));
    assert!(!str_lt("b", "a"));
    assert!(str_lt("Z", "a"));
}

#[test]
fn lookup_finds_first_directory_ignoring_case() {
    let entries = vec![
        entry("llvm", EntryKind::File),
        entry("LLVM", EntryKind::Dir),
        entry("llvm", EntryKind::Dir),
    ];
    assert_eq!(find_subdir_case_insensitive(&entries, "LlVm").unwrap(), 1);
    assert_eq!(find_subfile_case_insensitive(&entries, "LLVM").unwrap(), 0);
    assert_eq!(find_sub_case_insensitive(&entries, "llvm", false).unwrap(), 1);
}

#[test]
fn lookup_never_returns_other_kinds() {
    let entries = vec![entry("link", EntryKind::Other), entry("Link", EntryKind::File)];
    assert!(find_subdir_case_insensitive(&entries, "link").is_err());
    assert_eq!(find_subfile_case_insensitive(&entries, "LINK").unwrap(), 1);
}

#[test]
fn lookup_error_names_lowercased_subpath() {
    let entries = vec![entry("Other", EntryKind::Dir)];
    match find_subdir_case_insensitive(&entries, "Missing") {
        Err(LookupError::SubpathNotFound { subpath }) => assert_eq!(subpath, "missing"),
        other => panic!("unexpected {other:?}"),
    }
    match find_subdir_case_insensitive(&Vec::new(), "x") {
        Err(LookupError::SubpathNotFound { subpath }) => assert_eq!(subpath, "x"),
        other => panic!("unexpected {other:?}"),
    }
}

#[test]
fn lookup_same_for_names_equal_up_to_case() {
    let entries = vec![entry("a", EntryKind::Dir), entry("Zed", EntryKind::Dir)];
    assert_eq!(
        find_subdir_case_insensitive(&entries, "zed").unwrap(),
        find_subdir_case_insensitive(&entries, "ZED").unwrap()
    );
}
