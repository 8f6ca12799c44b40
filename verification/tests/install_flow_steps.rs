use wine_winget::error::{InstallError, LookupError, PathLevel};
use wine_winget::install_flow::{start_install, InstallEvent, InstallFailure, InstallStep};
use wine_winget::listing::{DirEntryInfo, EntryKind};
use wine_winget::package::{PackagePathEvent, PackagePathState};
use wine_winget::schema::{Architecture, Installer, InstallerManifest, PackageManifest};

fn entry(parent: &str, name: &str, kind: EntryKind) -> DirEntryInfo {
    DirEntryInfo { path: format!("{parent}/{name}"), name: name.to_string(), kind }
}

fn walk_listed(parent: &str, names: &[&str]) -> InstallEvent {
    InstallEvent::Walk {
        event: PackagePathEvent::Listed {
            entries: names.iter().map(|n| entry(parent, n, EntryKind::Dir)).collect(),
        },
    }
}

fn package_manifest() -> PackageManifest {
    PackageManifest {
        package_identifier: "LLVM.LLVM".to_string(),
        package_version: "18.1.8".to_string(),
        default_locale: "en-US".to_string(),
        manifest_type: "version".to_string(),
        manifest_version: Some("1.6.0".to_string()),
    }
}

const ABC_SHA256: &str = "BA7816BF8F01CFEA414140DE5DAE2223B00361A396177A9CB410FF61F20015AD";

fn installer_manifest(arch: Architecture, url: &str) -> InstallerManifest {
    InstallerManifest {
        package_identifier: "LLVM.LLVM".to_string(),
        package_version: "18.1.8".to_string(),
        installers: vec![Installer {
            architecture: arch,
            installer_url: url.to_string(),
            installer_sha256: ABC_SHA256.to_string(),
            installer_type: None,
        }],
        install_modes: None,
        installer_switches: None,
        installer_type: None,
    }
}

/// Drives the steps up to reading the installer manifest of `llvm.llvm` 18.1.8.
fn up_to_installer_manifest(version: Option<&str>) -> InstallStep {
    let m = "/r/manifests";
    let s = start_install("llvm.llvm", version, Architecture::X64);
    assert!(matches!(s, InstallStep::Locate { .. }));
    let s = s.advance(InstallEvent::Walk { event: PackagePathEvent::ManifestsChecked { is_dir: true } });
    let s = s.advance(walk_listed(m, &["k", "l"]));
    let s = s.advance(walk_listed(&format!("{m}/l"), &["LLVM"]));
    let s = s.advance(walk_listed(&format!("{m}/l/LLVM"), &["LLVM"]));
    match &s {
        InstallStep::ListVersions { letter_dir, vendor_dir, package_dir, .. } => {
            assert_eq!((letter_dir.as_str(), vendor_dir.as_str(), package_dir.as_str()), ("l", "LLVM", "LLVM"));
        }
        other => panic!("unexpected {other:?}"),
    }
    let p = format!("{m}/l/LLVM/LLVM");
    let s = s.advance(InstallEvent::Listed {
        entries: vec![
            entry(&p, "17.0.6", EntryKind::Dir),
            entry(&p, "18.1.8", EntryKind::Dir),
            entry(&p, "18.1", EntryKind::File),
        ],
    });
    let v = match &s {
        InstallStep::FindPackageManifest { version_dir, .. } => version_dir.clone(),
        other => panic!("unexpected {other:?}"),
    };
    assert_eq!(v, format!("{p}/18.1.8"));
    let files = vec![
        entry(&v, "llvm.llvm.installer.yaml", EntryKind::File),
        entry(&v, "LLVM.LLVM.yaml", EntryKind::File),
        entry(&v, "LLVM.LLVM.locale.en-US.yaml", EntryKind::File),
    ];
    let s = s.advance(InstallEvent::Listed { entries: files.clone() });
    match &s {
        InstallStep::ReadPackageManifest { path, .. } => assert_eq!(path, &format!("{v}/LLVM.LLVM.yaml")),
        other => panic!("unexpected {other:?}"),
    }
    let s = s.advance(InstallEvent::PackageManifestRead { manifest: package_manifest() });
    assert!(matches!(s, InstallStep::FindInstallerManifest { .. }));
    let s = s.advance(InstallEvent::Listed { entries: files });
    match &s {
        InstallStep::ReadInstallerManifest { path, .. } => {
            assert_eq!(path, &format!("{v}/llvm.llvm.installer.yaml"))
        }
        other => panic!("unexpected {other:?}"),
    }
    s
}

#[test]
fn install_runs_through_all_steps() {
    let s = up_to_installer_manifest(None).advance(InstallEvent::InstallerManifestRead {
        manifest: installer_manifest(Architecture::X64, "https://e/LLVM-18.1.8-win64.exe"),
    });
    match &s {
        InstallStep::Download { url, file_name, download_path, expected_sha256 } => {
            assert_eq!(url, "https://e/LLVM-18.1.8-win64.exe");
            assert_eq!(file_name, "LLVM-18.1.8-win64.exe");
            assert_eq!(download_path, "/tmp/LLVM-18.1.8-win64.exe");
            assert_eq!(expected_sha256, ABC_SHA256);
        }
        other => panic!("unexpected {other:?}"),
    }
    let s = s.advance(InstallEvent::Downloaded);
    assert!(matches!(s, InstallStep::Verify { .. }));
    let s = s.advance(InstallEvent::FileRead { data: b"abc".to_vec() });
    assert!(matches!(s, InstallStep::Run { .. }));
    let s = s.advance(InstallEvent::InstallerExited { success: true });
    match s {
        InstallStep::Done { download_path } => assert_eq!(download_path, "/tmp/LLVM-18.1.8-win64.exe"),
        other => panic!("unexpected {other:?}"),
    }
}

#[test]
fn install_refuses_wrong_checksum() {
    let s = up_to_installer_manifest(Some(">=18"))
        .advance(InstallEvent::InstallerManifestRead {
            manifest: installer_manifest(Architecture::X64, "https://e/a.exe"),
        })
        .advance(InstallEvent::Downloaded)
        .advance(InstallEvent::FileRead { data: b"abd".to_vec() });
    match s {
        InstallStep::Failed {
            failure: InstallFailure::Installer { error: InstallError::ChecksumMismatch { actual, expected } },
        } => {
            assert_eq!(actual.len(), 64);
            assert_eq!(expected, ABC_SHA256.to_ascii_lowercase());
        }
        other => panic!("unexpected {other:?}"),
    }
}

#[test]
fn install_needs_installer_for_architecture() {
    let s = up_to_installer_manifest(None).advance(InstallEvent::InstallerManifestRead {
        manifest: installer_manifest(Architecture::Arm64, "https://e/a.exe"),
    });
    assert!(matches!(
        s,
        InstallStep::Failed {
            failure: InstallFailure::Installer { error: InstallError::NoInstallerForArchitecture }
        }
    ));
}

#[test]
fn install_needs_slash_in_url() {
    let s = up_to_installer_manifest(None).advance(InstallEvent::InstallerManifestRead {
        manifest: installer_manifest(Architecture::X64, "setup.exe"),
    });
    assert!(matches!(
        s,
        InstallStep::Failed { failure: InstallFailure::Installer { error: InstallError::UrlWithoutSlash } }
    ));
}

#[test]
fn install_reports_failing_installer() {
    let s = up_to_installer_manifest(None)
        .advance(InstallEvent::InstallerManifestRead {
            manifest: installer_manifest(Architecture::X64, "https://e/a.exe"),
        })
        .advance(InstallEvent::Downloaded)
        .advance(InstallEvent::FileRead { data: b"abc".to_vec() })
        .advance(InstallEvent::InstallerExited { success: false });
    assert!(matches!(s, InstallStep::Failed { failure: InstallFailure::InstallerFailed }));
}

#[test]
fn install_rejects_bad_requirement_first() {
    let s = start_install("", Some("not a requirement"), Architecture::X64);
    match s {
        InstallStep::Failed {
            failure: InstallFailure::Requirement { error: InstallError::InvalidVersionRequirement { text } },
        } => assert_eq!(text, "not a requirement"),
        other => panic!("unexpected {other:?}"),
    }
}

#[test]
fn install_rejects_malformed_package_name() {
    let s = start_install("llvm", None, Architecture::X64);
    assert!(matches!(
        s,
        InstallStep::Failed {
            failure: InstallFailure::PackageDir { level: None, error: LookupError::MissingDot { .. } }
        }
    ));
}

#[test]
fn install_fails_when_no_version_meets_requirement() {
    let s = start_install("LLVM.LLVM", Some("<1"), Architecture::X64)
        .advance(InstallEvent::Walk { event: PackagePathEvent::ManifestsChecked { is_dir: true } })
        .advance(walk_listed("/m", &["L"]))
        .advance(walk_listed("/m/L", &["LLVM"]))
        .advance(walk_listed("/m/L/LLVM", &["LLVM"]))
        .advance(InstallEvent::Listed { entries: vec![entry("/p", "18.1.8", EntryKind::Dir)] });
    assert!(matches!(
        s,
        InstallStep::Failed { failure: InstallFailure::VersionDir { error: LookupError::NoVersion } }
    ));
}

#[test]
fn install_reports_missing_package_dir_level() {
    let s = start_install("LLVM.LLVM", None, Architecture::X64)
        .advance(InstallEvent::Walk { event: PackagePathEvent::ManifestsChecked { is_dir: true } })
        .advance(walk_listed("/m", &["L"]))
        .advance(walk_listed("/m/L", &["LLVM"]))
        .advance(walk_listed("/m/L/LLVM", &["Clang"]));
    match s {
        InstallStep::Failed {
            failure: InstallFailure::PackageDir { level: Some(PathLevel::Package), error: LookupError::SubpathNotFound { subpath } },
        } => assert_eq!(subpath, "llvm"),
        other => panic!("unexpected {other:?}"),
    }
}

#[test]
fn install_ignores_events_it_did_not_ask_for() {
    let s = start_install("LLVM.LLVM", None, Architecture::X64).advance(InstallEvent::Downloaded);
    match s {
        InstallStep::Locate { walk: PackagePathState::CheckManifests { .. }, .. } => {}
        other => panic!("unexpected {other:?}"),
    }
}
