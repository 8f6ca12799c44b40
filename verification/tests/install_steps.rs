use wine_winget::error::InstallError;
use wine_winget::install::{
    download_path, find_installer, installer_file_name, parse_version_requirement, sha256_hex,
    verify_checksum,
};
use wine_winget::schema::{Architecture, Installer, InstallerManifest, InstallerType};
use wine_winget::settings::Settings;

fn installer(arch: Architecture, url: &str) -> Installer {
    Installer {
        architecture: arch,
        installer_url: url.to_string(),
        installer_sha256: "AB".to_string(),
        installer_type: Some(InstallerType::Exe),
    }
}

fn manifest(installers: Vec<Installer>) -> InstallerManifest {
    InstallerManifest {
        package_identifier: "LLVM.LLVM".to_string(),
        package_version: "18.1.8".to_string(),
        installers,
        install_modes: None,
        installer_switches: None,
        installer_type: None,
    }
}

#[test]
fn first_installer_for_architecture() {
    let m = manifest(vec![
        installer(Architecture::X86, "https://e/a-x86.exe"),
        installer(Architecture::X64, "https://e/a-x64.exe"),
        installer(Architecture::X64, "https://e/b-x64.exe"),
    ]);
    assert_eq!(find_installer(&m, Architecture::X64).unwrap(), 1);
    assert_eq!(find_installer(&m, Architecture::X86).unwrap(), 0);
    assert!(matches!(
        find_installer(&m, Architecture::Arm64),
        Err(InstallError::NoInstallerForArchitecture)
    ));
    assert!(find_installer(&manifest(vec![]), Architecture::X64).is_err());
}

#[test]
fn installer_file_name_is_last_segment() {
    assert_eq!(
        installer_file_name("https://github.com/llvm/releases/LLVM-18.1.8-win64.exe").unwrap(),
        "LLVM-18.1.8-win64.exe"
    );
    assert_eq!(installer_file_name("https://e/dir/").unwrap(), "");
    assert!(matches!(installer_file_name("setup.exe"), Err(InstallError::UrlWithoutSlash)));
}

#[test]
fn download_goes_to_tmp() {
    assert_eq!(download_path("setup.exe"), "/tmp/setup.exe");
}

#[test]
fn sha256_of_known_inputs() {
    assert_eq!(
        sha256_hex(b""),
        "e3b0c44298fc1c149afbf4c8996fb92427ae41e4649b934ca495991b7852b855"
    );
    assert_eq!(
        sha256_hex(b"abc"),
        "ba7816bf8f01cfea414140de5dae2223b00361a396177a9cb410ff61f20015ad"
    );
}

#[test]
fn checksum_compare_ignores_case() {
    let actual = sha256_hex(b"abc");
    let expected = "BA7816BF8F01CFEA414140DE5DAE2223B00361A396177A9CB410FF61F20015AD";
    assert!(verify_checksum(&actual, expected).is_ok());
    assert!(verify_checksum(expected, &actual).is_ok());
}

#[test]
fn checksum_mismatch_reports_both_in_lower_case() {
    match verify_checksum("ABC", "ABD") {
        Err(InstallError::ChecksumMismatch { actual, expected }) => {
            assert_eq!(actual, "abc");
            assert_eq!(expected, "abd");
        }
        other => panic!("unexpected {other:?}"),
    }
}

#[test]
fn version_requirement_option() {
    assert!(matches!(parse_version_requirement(None), Ok(None)));
    let q = parse_version_requirement(Some("~17.0")).unwrap().unwrap();
    assert_eq!(q.text(), "~17.0");
    match parse_version_requirement(Some("not a version")) {
        Err(InstallError::InvalidVersionRequirement { text }) => assert_eq!(text, "not a version"),
        other => panic!("unexpected {other:?}"),
    }
}

#[test]
fn default_settings_have_no_repository() {
    assert_eq!(Settings::default().repo_path, "");
}
