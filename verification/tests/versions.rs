use wine_winget::error::LookupError;
use wine_winget::listing::{DirEntryInfo, EntryKind};
use wine_winget::version::{
    find_version, parse_version, parse_version_req, requirement_matches, version_candidate,
    version_eq, version_lt,
};

fn dir(name: &str) -> DirEntryInfo {
    DirEntryInfo {
        path: format!("/repo/manifests/l/LLVM/LLVM/{name}"),
        name: name.to_string(),
        kind: EntryKind::Dir,
    }
}

fn names(entries: &[DirEntryInfo], i: usize) -> &str {
    &entries[i].name
}

#[test]
fn parses_full_versions() {
    let v = parse_version("1.2.3-rc.1+build.5").unwrap();
    assert_eq!((v.major(), v.minor(), v.patch()), (1, 2, 3));
    assert_eq!(v.pre(), "rc.1");
    assert_eq!(v.build(), "build.5");
    assert!(parse_version("1.2").is_none());
    assert!(parse_version("1.0.01").is_none());
    assert!(parse_version("latest").is_none());
}

#[test]
fn version_order_follows_semver() {
    let a = parse_version("1.9.0").unwrap();
    let b = parse_version("1.10.0").unwrap();
    let pre = parse_version("1.10.0-beta").unwrap();
    assert!(version_lt(&a, &b));
    assert!(!version_lt(&b, &a));
    assert!(version_lt(&pre, &b));
    assert!(!version_lt(&b, &pre));
    assert!(!version_lt(&b, &b));
    assert!(version_eq(&b, &parse_version("1.10.0").unwrap()));
    assert!(!version_eq(&b, &pre));
}

#[test]
fn requirements_parse_and_match() {
    let req = parse_version_req(">=1.2, <2").unwrap();
    assert_eq!(req.text(), ">=1.2, <2");
    assert!(requirement_matches(&req, &parse_version("1.5.0").unwrap()));
    assert!(!requirement_matches(&req, &parse_version("2.0.0").unwrap()));
    assert!(parse_version_req(">=1.0 <2.0").is_none());
}

#[test]
fn candidate_accepts_major_minor_names() {
    let v = version_candidate("17.0", None).unwrap();
    assert_eq!((v.major(), v.minor(), v.patch()), (17, 0, 0));
    let v = version_candidate("18.1.8", None).unwrap();
    assert_eq!((v.major(), v.minor(), v.patch()), (18, 1, 8));
    assert!(version_candidate("18", None).is_none());
    assert!(version_candidate("nightly", None).is_none());
}

#[test]
fn candidate_respects_requirement() {
    let req = parse_version_req("^17").unwrap();
    assert!(version_candidate("17.0.6", Some(&req)).is_some());
    assert!(version_candidate("18.1.8", Some(&req)).is_none());
    assert!(version_candidate("17.0", Some(&req)).is_some());
}

#[test]
fn newest_version_is_chosen() {
    let entries = vec![dir("9.0.1"), dir("18.1.8"), dir("17.0"), dir("18.1.8-rc1"), dir("docs")];
    let i = find_version(&entries, None).unwrap();
    assert_eq!(names(&entries, i), "18.1.8");
}

#[test]
fn newest_version_meeting_requirement_is_chosen() {
    let entries = vec![dir("9.0.1"), dir("18.1.8"), dir("17.0.6"), dir("17.0")];
    let req = parse_version_req("<18").unwrap();
    let i = find_version(&entries, Some(&req)).unwrap();
    assert_eq!(names(&entries, i), "17.0.6");
}

#[test]
fn files_are_not_versions() {
    let mut entries = vec![dir("1.0.0")];
    entries.push(DirEntryInfo {
        path: "/x/2.0.0".to_string(),
        name: "2.0.0".to_string(),
        kind: EntryKind::File,
    });
    let i = find_version(&entries, None).unwrap();
    assert_eq!(i, 0);
}

#[test]
fn equal_versions_prefer_greater_name() {
    let entries = vec![dir("1.0.0"), dir("1.0")];
    assert_eq!(find_version(&entries, None).unwrap(), 0);
    let entries = vec![dir("1.0"), dir("1.0.0")];
    assert_eq!(find_version(&entries, None).unwrap(), 1);
}

#[test]
fn no_version_is_an_error() {
    let entries = vec![dir("docs"), dir("latest")];
    assert!(matches!(find_version(&entries, None), Err(LookupError::NoVersion)));
    assert!(matches!(find_version(&Vec::new(), None), Err(LookupError::NoVersion)));
    let req = parse_version_req(">=100").unwrap();
    assert!(matches!(find_version(&vec![dir("1.0.0")], Some(&req)), Err(LookupError::NoVersion)));
}
