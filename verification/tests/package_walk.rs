use wine_winget::error::{LookupError, PathLevel};
use wine_winget::listing::{DirEntryInfo, EntryKind};
use wine_winget::package::{
    installer_manifest_file_name, manifest_file_name, package_path, parse_package_id,
    PackagePathEvent, PackagePathState,
};

fn dir(name: &str) -> DirEntryInfo {
    DirEntryInfo { path: format!("/p/{name}"), name: name.to_string(), kind: EntryKind::Dir }
}

fn listed(names: &[&str]) -> PackagePathEvent {
    PackagePathEvent::Listed { entries: names.iter().map(|n| dir(n)).collect() }
}

#[test]
fn package_id_splits_at_first_dot() {
    let id = parse_package_id("Microsoft.VisualStudio.Code").unwrap();
    assert_eq!(id.first_letter, "M");
    assert_eq!(id.vendor, "Microsoft");
    assert_eq!(id.name, "VisualStudio.Code");
    let id = parse_package_id("LLVM.LLVM").unwrap();
    assert_eq!(format!("{}.{}", id.vendor, id.name), "LLVM.LLVM");
}

#[test]
fn package_id_errors() {
    assert!(matches!(parse_package_id(""), Err(LookupError::EmptyPackageName)));
    match parse_package_id("llvm") {
        Err(LookupError::MissingDot { package }) => assert_eq!(package, "llvm"),
        other => panic!("unexpected {other:?}"),
    }
    let id = parse_package_id(".x").unwrap();
    assert_eq!((id.first_letter.as_str(), id.vendor.as_str(), id.name.as_str()), (".", "", "x"));
}

#[test]
fn manifest_file_names() {
    let id = parse_package_id("LLVM.LLVM").unwrap();
    assert_eq!(manifest_file_name(&id), "LLVM.LLVM.yaml");
    assert_eq!(installer_manifest_file_name(&id), "LLVM.LLVM.installer.yaml");
}

#[test]
fn walk_finds_package_directory_ignoring_case() {
    let s = package_path("llvm.llvm");
    assert!(matches!(s, PackagePathState::CheckManifests { .. }));
    let s = s.advance(PackagePathEvent::ManifestsChecked { is_dir: true });
    assert!(matches!(s, PackagePathState::FindLetter { .. }));
    let s = s.advance(listed(&["k", "L", "l"]));
    let s = s.advance(listed(&["Lenovo", "LLVM"]));
    let s = s.advance(listed(&["LLVM", "clang"]));
    match s {
        PackagePathState::Found { letter_dir, vendor_dir, package_dir } => {
            assert_eq!(letter_dir, "L");
            assert_eq!(vendor_dir, "LLVM");
            assert_eq!(package_dir, "LLVM");
        }
        other => panic!("unexpected {other:?}"),
    }
}

#[test]
fn walk_fails_without_manifests_directory() {
    let s = package_path("LLVM.LLVM").advance(PackagePathEvent::ManifestsChecked { is_dir: false });
    assert!(matches!(
        s,
        PackagePathState::Failed { level: None, error: LookupError::ManifestsNotADirectory }
    ));
}

#[test]
fn walk_fails_on_malformed_name() {
    assert!(matches!(
        package_path(""),
        PackagePathState::Failed { level: None, error: LookupError::EmptyPackageName }
    ));
    assert!(matches!(
        package_path("nodot"),
        PackagePathState::Failed { level: None, error: LookupError::MissingDot { .. } }
    ));
}

#[test]
fn walk_reports_missing_vendor() {
    let s = package_path("LLVM.LLVM")
        .advance(PackagePathEvent::ManifestsChecked { is_dir: true })
        .advance(listed(&["l"]))
        .advance(listed(&["Lenovo"]));
    match s {
        PackagePathState::Failed {
            level: Some(PathLevel::Vendor),
            error: LookupError::SubpathNotFound { subpath },
        } => assert_eq!(subpath, "llvm"),
        other => panic!("unexpected {other:?}"),
    }
}

#[test]
fn walk_reports_listing_failure_and_ignores_unasked_events() {
    let s = package_path("LLVM.LLVM").advance(listed(&["l"]));
    assert!(matches!(s, PackagePathState::CheckManifests { .. }));
    let s = s
        .advance(PackagePathEvent::ManifestsChecked { is_dir: true })
        .advance(PackagePathEvent::ListingFailed);
    assert!(matches!(
        s,
        PackagePathState::Failed { level: Some(PathLevel::Letter), error: LookupError::ListingFailed }
    ));
}
