//! Installing one package, as a state machine: from the package name to the
//! version directory, its two manifests, the installer for the machine's
//! architecture, the download and its checksum, and running the installer.
//!
//! Each state asks the caller for one piece of outside work (list a
//! directory, read a manifest, download, read the download, run the
//! installer); `InstallStep::advance` takes the outcome and decides what comes
//! next.
use vstd::prelude::*;

use crate::error::{InstallError, LookupError, PathLevel};
use crate::install::{
    download_path, find_installer, hex_lower, installer_file_name, parse_version_requirement,
    sha256_digest, sha256_hex, verify_checksum,
};
use crate::listing::{find_subfile_case_insensitive, sub_lookup_result, DirEntryInfo};
use crate::package::{
    advance_spec, installer_manifest_file_name, installer_manifest_file_spec, manifest_file_name,
    manifest_file_spec, package_id_result, package_path, parse_package_id, PackageId,
    PackagePathEvent, PackagePathState,
};
use crate::schema::{Architecture, Installer, InstallerManifest, PackageManifest};
use crate::text::{ascii_lower, is_last_index};
use crate::version::{find_version, newest_in, req_view, semver_req_parses, VersionRequirement};

verus! {

/// Why installing a package failed, and at which step.
#[derive(Debug)]
pub enum InstallFailure {
    /// The version requirement does not parse.
    Requirement { error: InstallError },
    /// The package's directory was not found.
    PackageDir { level: Option<PathLevel>, error: LookupError },
    /// No version directory was found.
    VersionDir { error: LookupError },
    /// The package manifest was not found.
    PackageManifest { error: LookupError },
    /// The package manifest could not be read or parsed.
    PackageManifestUnreadable,
    /// The installer manifest was not found.
    InstallerManifest { error: LookupError },
    /// The installer manifest could not be read or parsed.
    InstallerManifestUnreadable,
    /// No usable installer, or the download's checksum is wrong.
    Installer { error: InstallError },
    /// The download failed.
    DownloadFailed,
    /// The downloaded file could not be read.
    DownloadUnreadable,
    /// The installer ran and reported failure.
    InstallerFailed,
    /// The installer could not be started.
    InstallerDidNotStart,
}

/// Where installing a package stands, and so what the caller is to do next.
#[derive(Debug)]
pub enum InstallStep {
    /// Walking to the package's directory: do what `walk` asks.
    Locate {
        walk: PackagePathState,
        id: PackageId,
        req: Option<VersionRequirement>,
        arch: Architecture,
    },
    /// List `manifests/<letter_dir>/<vendor_dir>/<package_dir>`, to choose the version.
    ListVersions {
        id: PackageId,
        req: Option<VersionRequirement>,
        arch: Architecture,
        letter_dir: String,
        vendor_dir: String,
        package_dir: String,
    },
    /// List `version_dir`, to find the package manifest.
    FindPackageManifest { id: PackageId, arch: Architecture, version_dir: String },
    /// Read and parse the package manifest at `path`.
    ReadPackageManifest { id: PackageId, arch: Architecture, version_dir: String, path: String },
    /// List `version_dir`, to find the installer manifest.
    FindInstallerManifest { id: PackageId, arch: Architecture, version_dir: String },
    /// Read and parse the installer manifest at `path`.
    ReadInstallerManifest { arch: Architecture, path: String },
    /// Download `url` to `download_path`.
    Download { url: String, file_name: String, download_path: String, expected_sha256: String },
    /// Read the downloaded file, to check its checksum.
    Verify { file_name: String, download_path: String, expected_sha256: String },
    /// Run the installer at `download_path`.
    Run { file_name: String, download_path: String },
    /// The installer ran successfully; the download at `download_path` may go.
    Done { download_path: String },
    /// Installing failed.
    Failed { failure: InstallFailure },
}

/// What the caller learned when doing what a step asked for.
#[derive(Debug)]
pub enum InstallEvent {
    /// The outcome of what the walk to the package directory asked for.
    Walk { event: PackagePathEvent },
    /// The entries of the directory asked for.
    Listed { entries: Vec<DirEntryInfo> },
    /// The directory asked for could not be listed.
    ListingFailed,
    /// The package manifest, parsed.
    PackageManifestRead { manifest: PackageManifest },
    /// The installer manifest, parsed.
    InstallerManifestRead { manifest: InstallerManifest },
    /// The manifest asked for could not be read or parsed.
    ManifestUnreadable,
    /// The download is complete.
    Downloaded,
    /// The download failed.
    DownloadFailed,
    /// The contents of the downloaded file.
    FileRead { data: Vec<u8> },
    /// The downloaded file could not be read.
    FileUnreadable,
    /// The installer ran, and whether it succeeded.
    InstallerExited { success: bool },
    /// The installer could not be started.
    InstallerDidNotStart,
}

/// The view of an owned optional requirement.
pub open spec fn opt_req_view(req: Option<VersionRequirement>) -> Option<Seq<char>> {
    match req {
        None => None,
        Some(q) => Some(q@),
    }
}

/// How installing starts: a requirement that does not parse fails; else a
/// malformed package name fails; else the walk to the package starts.
pub open spec fn start_spec(
    package: Seq<char>,
    version: Option<Seq<char>>,
    arch: Architecture,
    r: InstallStep,
) -> bool {
    if version is Some && !semver_req_parses(version->0) {
        r matches InstallStep::Failed {
            failure: InstallFailure::Requirement {
                error: InstallError::InvalidVersionRequirement { text },
            },
        } && text@ == version->0
    } else {
        ||| r matches InstallStep::Locate { walk, id, req, arch: a } && {
            &&& a == arch
            &&& opt_req_view(req) == version
            &&& package_id_result(package, Ok::<PackageId, LookupError>(id))
            &&& walk matches PackagePathState::CheckManifests { id: wid }
            &&& package_id_result(package, Ok::<PackageId, LookupError>(wid))
        }
        ||| r matches InstallStep::Failed {
            failure: InstallFailure::PackageDir { level: None, error },
        } && package_id_result(package, Err::<PackageId, LookupError>(error))
    }
}

/// The step after the walk reached state `w`.
pub open spec fn after_walk(
    w: PackagePathState,
    id: PackageId,
    req: Option<VersionRequirement>,
    arch: Architecture,
) -> InstallStep {
    match w {
        PackagePathState::Found { letter_dir, vendor_dir, package_dir } => InstallStep::ListVersions {
            id,
            req,
            arch,
            letter_dir,
            vendor_dir,
            package_dir,
        },
        PackagePathState::Failed { level, error } => InstallStep::Failed {
            failure: InstallFailure::PackageDir { level, error },
        },
        _ => InstallStep::Locate { walk: w, id, req, arch },
    }
}

/// Looking up the file `name` in `entries`: `t` is `found` of the first
/// match's path, or `fail` of the lookup's error.
pub open spec fn file_lookup_step(
    entries: Seq<DirEntryInfo>,
    name: Seq<char>,
    t: InstallStep,
    found: spec_fn(String) -> InstallStep,
    fail: spec_fn(LookupError) -> InstallStep,
) -> bool {
    exists|r: Result<usize, LookupError>|
        sub_lookup_result(entries, name, true, r) && match r {
            Ok(i) => t == found(entries[i as int].path),
            Err(e) => t == fail(e),
        }
}

/// `i` is the first installer for `arch`.
pub open spec fn is_first_installer(m: InstallerManifest, arch: Architecture, i: int) -> bool {
    0 <= i < m.installers@.len() && m.installers@[i].architecture == arch && forall|j: int|
        0 <= j < i ==> m.installers@[j].architecture != arch
}

/// The step after choosing installer `inst`: download it to `/tmp/<file name>`,
/// the file name being what its URL has after the last `/`.
pub open spec fn after_installer(inst: Installer, t: InstallStep) -> bool {
    if inst.installer_url@.contains('/') {
        t matches InstallStep::Download { url, file_name, download_path, expected_sha256 } && {
            &&& url == inst.installer_url
            &&& expected_sha256 == inst.installer_sha256
            &&& exists|d: int| is_last_index(url@, '/', d) && file_name@ == url@.skip(d + 1)
            &&& download_path@ == seq!['/', 't', 'm', 'p', '/'] + file_name@
        }
    } else {
        t matches InstallStep::Failed {
            failure: InstallFailure::Installer { error: InstallError::UrlWithoutSlash },
        }
    }
}

/// The step after reading the installer manifest `m`.
pub open spec fn after_installer_manifest(m: InstallerManifest, arch: Architecture, t: InstallStep) -> bool {
    if exists|i: int| is_first_installer(m, arch, i) {
        exists|i: int| is_first_installer(m, arch, i) && after_installer(m.installers@[i], t)
    } else {
        t matches InstallStep::Failed {
            failure: InstallFailure::Installer { error: InstallError::NoInstallerForArchitecture },
        }
    }
}

/// The step after reading the download `data`: run it when its SHA-256
/// equals the expected one up to case, else fail naming both in lower case.
pub open spec fn after_download_read(
    data: Seq<u8>,
    file_name: String,
    download_path: String,
    expected_sha256: String,
    t: InstallStep,
) -> bool {
    let actual = hex_lower(sha256_digest(data));
    if ascii_lower(actual) == ascii_lower(expected_sha256@) {
        t == InstallStep::Run { file_name, download_path }
    } else {
        t matches InstallStep::Failed {
            failure: InstallFailure::Installer {
                error: InstallError::ChecksumMismatch { actual: a, expected: x },
            },
        } && a@ == ascii_lower(actual) && x@ == ascii_lower(expected_sha256@)
    }
}

/// One step of installing: from step `s`, on event `ev`, to step `t`. An
/// event that the step did not ask for leaves it unchanged.
pub open spec fn install_advance_spec(s: InstallStep, ev: InstallEvent, t: InstallStep) -> bool {
    match s {
        InstallStep::Locate { walk, id, req, arch } => match ev {
            InstallEvent::Walk { event } => exists|w: PackagePathState|
                advance_spec(walk, event, w) && t == after_walk(w, id, req, arch),
            _ => t == s,
        },
        InstallStep::ListVersions { id, req, arch, .. } => match ev {
            InstallEvent::Listed { entries } => match newest_in(
                entries@,
                opt_req_view(req),
                entries@.len(),
            ) {
                Some(p) => t == InstallStep::FindPackageManifest {
                    id,
                    arch,
                    version_dir: entries@[p.0].path,
                },
                None => t matches InstallStep::Failed {
                    failure: InstallFailure::VersionDir { error: LookupError::NoVersion },
                },
            },
            InstallEvent::ListingFailed => t == InstallStep::Failed {
                failure: InstallFailure::VersionDir { error: LookupError::ListingFailed },
            },
            _ => t == s,
        },
        InstallStep::FindPackageManifest { id, arch, version_dir } => match ev {
            InstallEvent::Listed { entries } => file_lookup_step(
                entries@,
                manifest_file_spec(id),
                t,
                |p: String| InstallStep::ReadPackageManifest { id, arch, version_dir, path: p },
                |e: LookupError| InstallStep::Failed {
                    failure: InstallFailure::PackageManifest { error: e },
                },
            ),
            InstallEvent::ListingFailed => t == InstallStep::Failed {
                failure: InstallFailure::PackageManifest { error: LookupError::ListingFailed },
            },
            _ => t == s,
        },
        InstallStep::ReadPackageManifest { id, arch, version_dir, .. } => match ev {
            InstallEvent::PackageManifestRead { .. } => t == InstallStep::FindInstallerManifest {
                id,
                arch,
                version_dir,
            },
            InstallEvent::ManifestUnreadable => t == InstallStep::Failed {
                failure: InstallFailure::PackageManifestUnreadable,
            },
            _ => t == s,
        },
        InstallStep::FindInstallerManifest { id, arch, version_dir } => match ev {
            InstallEvent::Listed { entries } => file_lookup_step(
                entries@,
                installer_manifest_file_spec(id),
                t,
                |p: String| InstallStep::ReadInstallerManifest { arch, path: p },
                |e: LookupError| InstallStep::Failed {
                    failure: InstallFailure::InstallerManifest { error: e },
                },
            ),
            InstallEvent::ListingFailed => t == InstallStep::Failed {
                failure: InstallFailure::InstallerManifest { error: LookupError::ListingFailed },
            },
            _ => t == s,
        },
        InstallStep::ReadInstallerManifest { arch, .. } => match ev {
            InstallEvent::InstallerManifestRead { manifest } => after_installer_manifest(
                manifest,
                arch,
                t,
            ),
            InstallEvent::ManifestUnreadable => t == InstallStep::Failed {
                failure: InstallFailure::InstallerManifestUnreadable,
            },
            _ => t == s,
        },
        InstallStep::Download { file_name, download_path, expected_sha256, .. } => match ev {
            InstallEvent::Downloaded => t == InstallStep::Verify {
                file_name,
                download_path,
                expected_sha256,
            },
            InstallEvent::DownloadFailed => t == InstallStep::Failed {
                failure: InstallFailure::DownloadFailed,
            },
            _ => t == s,
        },
        InstallStep::Verify { file_name, download_path, expected_sha256 } => match ev {
            InstallEvent::FileRead { data } => after_download_read(
                data@,
                file_name,
                download_path,
                expected_sha256,
                t,
            ),
            InstallEvent::FileUnreadable => t == InstallStep::Failed {
                failure: InstallFailure::DownloadUnreadable,
            },
            _ => t == s,
        },
        InstallStep::Run { download_path, .. } => match ev {
            InstallEvent::InstallerExited { success } => if success {
                t == InstallStep::Done { download_path }
            } else {
                t == InstallStep::Failed { failure: InstallFailure::InstallerFailed }
            },
            InstallEvent::InstallerDidNotStart => t == InstallStep::Failed {
                failure: InstallFailure::InstallerDidNotStart,
            },
            _ => t == s,
        },
        _ => t == s,
    }
}

/// Starts installing `package`, of a version meeting `version` if given, for
/// the machine's architecture `arch`.
pub fn start_install(package: &str, version: Option<&str>, arch: Architecture) -> (r: InstallStep)
    ensures
        start_spec(
            package@,
            match version {
                None => None,
                Some(v) => Some(v@),
            },
            arch,
            r,
        ),
{
    match parse_version_requirement(version) {
        Err(error) => InstallStep::Failed { failure: InstallFailure::Requirement { error } },
        Ok(req) => {
            let walk = package_path(package);
            match walk {
                PackagePathState::Failed { level, error } => InstallStep::Failed {
                    failure: InstallFailure::PackageDir { level, error },
                },
                w => match parse_package_id(package) {
                    Ok(id) => InstallStep::Locate { walk: w, id, req, arch },
                    Err(error) => InstallStep::Failed {
                        failure: InstallFailure::PackageDir { level: None, error },
                    },
                },
            }
        },
    }
}

/// Looks up a manifest file for the install steps.
fn lookup_file(entries: &Vec<DirEntryInfo>, name: &String) -> (r: Result<String, LookupError>)
    ensures
        exists|lr: Result<usize, LookupError>|
            sub_lookup_result(entries@, name@, true, lr) && match lr {
                Ok(i) => r == Ok::<String, LookupError>(entries@[i as int].path),
                Err(e) => r == Err::<String, LookupError>(e),
            },
{
    let lr = find_subfile_case_insensitive(entries, name.as_str());
    match lr {
        Ok(i) => Ok(entries[i].path.clone()),
        Err(e) => Err(e),
    }
}

/// Chooses the installer for `arch` and where to download it.
fn choose_installer(manifest: InstallerManifest, arch: Architecture) -> (t: InstallStep)
    ensures
        after_installer_manifest(manifest, arch, t),
{
    match find_installer(&manifest, arch) {
        Err(error) => {
            assert(!exists|i: int| is_first_installer(manifest, arch, i));
            InstallStep::Failed { failure: InstallFailure::Installer { error } }
        },
        Ok(i) => {
            assert(is_first_installer(manifest, arch, i as int));
            let inst = &manifest.installers[i];
            match installer_file_name(inst.installer_url.as_str()) {
                Err(error) => InstallStep::Failed { failure: InstallFailure::Installer { error } },
                Ok(file_name) => {
                    let path = download_path(file_name.as_str());
                    let t = InstallStep::Download {
                        url: inst.installer_url.clone(),
                        file_name,
                        download_path: path,
                        expected_sha256: inst.installer_sha256.clone(),
                    };
                    proof {
                        let d = choose|d: int|
                            is_last_index(inst.installer_url@, '/', d) && file_name@
                                == inst.installer_url@.skip(d + 1);
                        assert(inst.installer_url@[d] == '/');
                    }
                    assert(after_installer(manifest.installers@[i as int], t));
                    t
                },
            }
        },
    }
}

/// Checks the downloaded data against the expected SHA-256.
fn check_download(
    data: &Vec<u8>,
    file_name: String,
    download_path: String,
    expected_sha256: String,
) -> (t: InstallStep)
    ensures
        after_download_read(data@, file_name, download_path, expected_sha256, t),
{
    let actual = sha256_hex(data.as_slice());
    match verify_checksum(actual.as_str(), expected_sha256.as_str()) {
        Ok(()) => InstallStep::Run { file_name, download_path },
        Err(error) => InstallStep::Failed { failure: InstallFailure::Installer { error } },
    }
}

/// The step after `Locate`.
fn advance_locate(
    walk: PackagePathState,
    id: PackageId,
    req: Option<VersionRequirement>,
    arch: Architecture,
    event: InstallEvent,
) -> (r: InstallStep)
    ensures
        install_advance_spec(InstallStep::Locate { walk, id, req, arch }, event, r),
{
    match event {
        InstallEvent::Walk { event } => {
            let ghost old_walk = walk;
            let ghost ev = event;
            let w = walk.advance(event);
            assert(advance_spec(old_walk, ev, w));
            match w {
                PackagePathState::Found { letter_dir, vendor_dir, package_dir } => {
                    InstallStep::ListVersions { id, req, arch, letter_dir, vendor_dir, package_dir }
                },
                PackagePathState::Failed { level, error } => InstallStep::Failed {
                    failure: InstallFailure::PackageDir { level, error },
                },
                other => InstallStep::Locate { walk: other, id, req, arch },
            }
        },
        _ => InstallStep::Locate { walk, id, req, arch },
    }
}

/// The step after `ListVersions`.
fn advance_list_versions(
    id: PackageId,
    req: Option<VersionRequirement>,
    arch: Architecture,
    letter_dir: String,
    vendor_dir: String,
    package_dir: String,
    event: InstallEvent,
) -> (r: InstallStep)
    ensures
        install_advance_spec(
            InstallStep::ListVersions { id, req, arch, letter_dir, vendor_dir, package_dir },
            event,
            r,
        ),
{
    match event {
        InstallEvent::Listed { entries } => {
            let req_ref = req.as_ref();
            assert(req_view(req_ref) == opt_req_view(req));
            let found = find_version(&entries, req_ref);
            match found {
                Ok(i) => InstallStep::FindPackageManifest {
                    id,
                    arch,
                    version_dir: entries[i].path.clone(),
                },
                Err(error) => InstallStep::Failed { failure: InstallFailure::VersionDir { error } },
            }
        },
        InstallEvent::ListingFailed => InstallStep::Failed {
            failure: InstallFailure::VersionDir { error: LookupError::ListingFailed },
        },
        _ => InstallStep::ListVersions { id, req, arch, letter_dir, vendor_dir, package_dir },
    }
}

/// The step after `FindPackageManifest`.
fn advance_find_package_manifest(
    id: PackageId,
    arch: Architecture,
    version_dir: String,
    event: InstallEvent,
) -> (r: InstallStep)
    ensures
        install_advance_spec(InstallStep::FindPackageManifest { id, arch, version_dir }, event, r),
{
    match event {
        InstallEvent::Listed { entries } => {
            let name = manifest_file_name(&id);
            match lookup_file(&entries, &name) {
                Ok(path) => InstallStep::ReadPackageManifest { id, arch, version_dir, path },
                Err(error) => InstallStep::Failed {
                    failure: InstallFailure::PackageManifest { error },
                },
            }
        },
        InstallEvent::ListingFailed => InstallStep::Failed {
            failure: InstallFailure::PackageManifest { error: LookupError::ListingFailed },
        },
        _ => InstallStep::FindPackageManifest { id, arch, version_dir },
    }
}

/// The step after `FindInstallerManifest`.
fn advance_find_installer_manifest(
    id: PackageId,
    arch: Architecture,
    version_dir: String,
    event: InstallEvent,
) -> (r: InstallStep)
    ensures
        install_advance_spec(InstallStep::FindInstallerManifest { id, arch, version_dir }, event, r),
{
    match event {
        InstallEvent::Listed { entries } => {
            let name = installer_manifest_file_name(&id);
            match lookup_file(&entries, &name) {
                Ok(path) => InstallStep::ReadInstallerManifest { arch, path },
                Err(error) => InstallStep::Failed {
                    failure: InstallFailure::InstallerManifest { error },
                },
            }
        },
        InstallEvent::ListingFailed => InstallStep::Failed {
            failure: InstallFailure::InstallerManifest { error: LookupError::ListingFailed },
        },
        _ => InstallStep::FindInstallerManifest { id, arch, version_dir },
    }
}

/// The step after the reading, downloading and running steps.
fn advance_late(s: InstallStep, event: InstallEvent) -> (r: InstallStep)
    requires
        !(s is Locate || s is ListVersions || s is FindPackageManifest || s is FindInstallerManifest),
    ensures
        install_advance_spec(s, event, r),
{
    match s {
        InstallStep::ReadPackageManifest { id, arch, version_dir, path } => match event {
            InstallEvent::PackageManifestRead { .. } => InstallStep::FindInstallerManifest {
                id,
                arch,
                version_dir,
            },
            InstallEvent::ManifestUnreadable => InstallStep::Failed {
                failure: InstallFailure::PackageManifestUnreadable,
            },
            _ => InstallStep::ReadPackageManifest { id, arch, version_dir, path },
        },
        InstallStep::ReadInstallerManifest { arch, path } => match event {
            InstallEvent::InstallerManifestRead { manifest } => choose_installer(manifest, arch),
            InstallEvent::ManifestUnreadable => InstallStep::Failed {
                failure: InstallFailure::InstallerManifestUnreadable,
            },
            _ => InstallStep::ReadInstallerManifest { arch, path },
        },
        InstallStep::Download { url, file_name, download_path, expected_sha256 } => match event {
            InstallEvent::Downloaded => InstallStep::Verify {
                file_name,
                download_path,
                expected_sha256,
            },
            InstallEvent::DownloadFailed => InstallStep::Failed {
                failure: InstallFailure::DownloadFailed,
            },
            _ => InstallStep::Download { url, file_name, download_path, expected_sha256 },
        },
        InstallStep::Verify { file_name, download_path, expected_sha256 } => match event {
            InstallEvent::FileRead { data } => check_download(
                &data,
                file_name,
                download_path,
                expected_sha256,
            ),
            InstallEvent::FileUnreadable => InstallStep::Failed {
                failure: InstallFailure::DownloadUnreadable,
            },
            _ => InstallStep::Verify { file_name, download_path, expected_sha256 },
        },
        InstallStep::Run { file_name, download_path } => match event {
            InstallEvent::InstallerExited { success } => if success {
                InstallStep::Done { download_path }
            } else {
                InstallStep::Failed { failure: InstallFailure::InstallerFailed }
            },
            InstallEvent::InstallerDidNotStart => InstallStep::Failed {
                failure: InstallFailure::InstallerDidNotStart,
            },
            _ => InstallStep::Run { file_name, download_path },
        },
        other => other,
    }
}

impl InstallStep {
    /// Takes installing one step further, with what the caller learned.
    pub fn advance(self, event: InstallEvent) -> (r: InstallStep)
        ensures
            install_advance_spec(self, event, r),
    {
        match self {
            InstallStep::Locate { walk, id, req, arch } => advance_locate(walk, id, req, arch, event),
            InstallStep::ListVersions { id, req, arch, letter_dir, vendor_dir, package_dir } => {
                advance_list_versions(id, req, arch, letter_dir, vendor_dir, package_dir, event)
            },
            InstallStep::FindPackageManifest { id, arch, version_dir } => {
                advance_find_package_manifest(id, arch, version_dir, event)
            },
            InstallStep::FindInstallerManifest { id, arch, version_dir } => {
                advance_find_installer_manifest(id, arch, version_dir, event)
            },
            other => advance_late(other, event),
        }
    }
}

/// An installer is only ever run after its download's SHA-256 was found
/// equal, up to case, to the one its manifest gives.
pub proof fn lemma_runs_only_checked_download(
    file_name: String,
    download_path: String,
    expected_sha256: String,
    data: Vec<u8>,
    t: InstallStep,
)
    requires
        install_advance_spec(
            InstallStep::Verify { file_name, download_path, expected_sha256 },
            InstallEvent::FileRead { data },
            t,
        ),
        t is Run,
    ensures
        ascii_lower(hex_lower(sha256_digest(data@))) == ascii_lower(expected_sha256@),
{
}

/// What is downloaded is the URL of the first installer that the manifest
/// lists for the machine's architecture, and it is checked against that
/// installer's checksum.
pub proof fn lemma_downloads_installer_for_architecture(
    path: String,
    arch: Architecture,
    manifest: InstallerManifest,
    t: InstallStep,
)
    requires
        install_advance_spec(
            InstallStep::ReadInstallerManifest { arch, path },
            InstallEvent::InstallerManifestRead { manifest },
            t,
        ),
        t is Download,
    ensures
        exists|i: int|
            is_first_installer(manifest, arch, i) && t->Download_url
                == manifest.installers@[i].installer_url && t->Download_expected_sha256
                == manifest.installers@[i].installer_sha256,
{
}

/// The version directory is found by the walk to the package directory
/// followed by `find_version` on that directory's listing: the walk's found
/// directory is the one listed next, and the version directory is the newest
/// acceptable entry of that listing, or none is and installing fails.
pub proof fn lemma_version_dir_is_walk_then_newest(
    walk: PackagePathState,
    id: PackageId,
    req: Option<VersionRequirement>,
    arch: Architecture,
    ev: PackagePathEvent,
    t: InstallStep,
    entries: Vec<DirEntryInfo>,
    u: InstallStep,
)
    requires
        install_advance_spec(
            InstallStep::Locate { walk, id, req, arch },
            InstallEvent::Walk { event: ev },
            t,
        ),
        t is ListVersions,
        install_advance_spec(t, InstallEvent::Listed { entries }, u),
    ensures
        advance_spec(
            walk,
            ev,
            PackagePathState::Found {
                letter_dir: t->ListVersions_letter_dir,
                vendor_dir: t->ListVersions_vendor_dir,
                package_dir: t->ListVersions_package_dir,
            },
        ),
        match newest_in(entries@, opt_req_view(req), entries@.len()) {
            Some(p) => u == InstallStep::FindPackageManifest {
                id,
                arch,
                version_dir: entries@[p.0].path,
            },
            None => u matches InstallStep::Failed {
                failure: InstallFailure::VersionDir { error: LookupError::NoVersion },
            },
        },
{
    let w = choose|w: PackagePathState| advance_spec(walk, ev, w) && t == after_walk(w, id, req, arch);
    assert(w is Found);
}

/// The position and stopped flag of a queue of `len` packages after
/// recording how installing its current package went.
pub open spec fn queue_finish(q: (nat, bool), len: nat, succeeded: bool) -> (nat, bool) {
    if q.1 || q.0 >= len {
        q
    } else if succeeded {
        ((q.0 + 1) as nat, false)
    } else {
        (q.0, true)
    }
}

/// The position and stopped flag of a new queue of `len` packages after the
/// installs whose outcomes are `outcomes`, in order.
pub open spec fn queue_run(len: nat, outcomes: Seq<bool>) -> (nat, bool)
    decreases outcomes.len(),
{
    if outcomes.len() == 0 {
        (0, false)
    } else {
        queue_finish(queue_run(len, outcomes.drop_last()), len, outcomes.last())
    }
}

/// When every install succeeds, the `t`-th install is of package `t`: each
/// package is installed once, in list order, and after the last one nothing
/// is current.
pub proof fn lemma_queue_installs_each_once_in_order(len: nat, outcomes: Seq<bool>)
    requires
        outcomes.len() <= len,
        forall|k: int| 0 <= k < outcomes.len() ==> outcomes[k],
    ensures
        queue_run(len, outcomes) == (outcomes.len(), false),
    decreases outcomes.len(),
{
    if outcomes.len() > 0 {
        lemma_queue_installs_each_once_in_order(len, outcomes.drop_last());
    }
}

/// When the installs of packages `0..k` succeed and that of package `k`
/// fails, package `k` was the last one installed: from then on the queue
/// stays stopped at `k`, whatever is recorded, and nothing is current.
pub proof fn lemma_queue_stops_at_first_failure(len: nat, outcomes: Seq<bool>, k: int)
    requires
        0 <= k < outcomes.len(),
        k < len,
        forall|m: int| 0 <= m < k ==> outcomes[m],
        !outcomes[k],
    ensures
        forall|t: int| 0 <= t <= k ==> queue_run(len, #[trigger] outcomes.take(t)) == (t as nat, false),
        forall|t: int| k < t <= outcomes.len() ==> queue_run(len, #[trigger] outcomes.take(t)) == (
            k as nat,
            true,
        ),
{
    assert forall|t: int| 0 <= t <= k implies queue_run(len, #[trigger] outcomes.take(t)) == (
        t as nat,
        false,
    ) by {
        lemma_queue_installs_each_once_in_order(len, outcomes.take(t));
    }
    assert forall|t: int| k < t <= outcomes.len() implies queue_run(
        len,
        #[trigger] outcomes.take(t),
    ) == (k as nat, true) by {
        lemma_queue_stopped_stays(len, outcomes, k, t);
    }
}

/// Helper for `lemma_queue_stops_at_first_failure`, by induction on `t`.
proof fn lemma_queue_stopped_stays(len: nat, outcomes: Seq<bool>, k: int, t: int)
    requires
        0 <= k < t <= outcomes.len(),
        k < len,
        forall|m: int| 0 <= m < k ==> outcomes[m],
        !outcomes[k],
    ensures
        queue_run(len, outcomes.take(t)) == (k as nat, true),
    decreases t,
{
    assert(outcomes.take(t).drop_last() =~= outcomes.take(t - 1));
    assert(outcomes.take(t).last() == outcomes[t - 1]);
    if t == k + 1 {
        lemma_queue_installs_each_once_in_order(len, outcomes.take(k));
    } else {
        lemma_queue_stopped_stays(len, outcomes, k, t - 1);
    }
}

/// Both manifests are looked up in the chosen version directory: after the
/// package manifest found in a listing of `version_dir` has been read, the
/// next listing asked for is of that same `version_dir`, for the same package
/// and architecture.
pub proof fn lemma_installer_manifest_in_version_dir(
    id: PackageId,
    arch: Architecture,
    version_dir: String,
    entries: Vec<DirEntryInfo>,
    t: InstallStep,
    manifest: PackageManifest,
    u: InstallStep,
)
    requires
        install_advance_spec(
            InstallStep::FindPackageManifest { id, arch, version_dir },
            InstallEvent::Listed { entries },
            t,
        ),
        t is ReadPackageManifest,
        install_advance_spec(t, InstallEvent::PackageManifestRead { manifest }, u),
    ensures
        u == (InstallStep::FindInstallerManifest { id, arch, version_dir }),
        exists|i: int|
            0 <= i < entries@.len() && entries@[i].path == t->ReadPackageManifest_path && ascii_lower(
                entries@[i].name@,
            ) == ascii_lower(manifest_file_spec(id)),
{
    let r = choose|r: Result<usize, LookupError>|
        sub_lookup_result(entries@, manifest_file_spec(id), true, r) && match r {
            Ok(i) => t == (InstallStep::ReadPackageManifest {
                id,
                arch,
                version_dir,
                path: entries@[i as int].path,
            }),
            Err(e) => t == (InstallStep::Failed {
                failure: InstallFailure::PackageManifest { error: e },
            }),
        };
    assert(r is Ok);
}

/// Where some installer is for `arch`, a first one is.
proof fn lemma_first_installer_exists(m: InstallerManifest, arch: Architecture, j: int)
    requires
        0 <= j < m.installers@.len(),
        m.installers@[j].architecture == arch,
    ensures
        exists|f: int| is_first_installer(m, arch, f),
    decreases j,
{
    if forall|g: int| 0 <= g < j ==> m.installers@[g].architecture != arch {
        assert(is_first_installer(m, arch, j));
    } else {
        let g = choose|g: int| 0 <= g < j && m.installers@[g].architecture == arch;
        lemma_first_installer_exists(m, arch, g);
    }
}

/// Reading an installer manifest fails for want of an installer only when no
/// installer in it is for the machine's architecture; where some is, the first
/// such one is downloaded (or its URL, having no `/`, is refused).
pub proof fn lemma_installer_found_when_listed(
    arch: Architecture,
    path: String,
    manifest: InstallerManifest,
    t: InstallStep,
)
    requires
        install_advance_spec(
            InstallStep::ReadInstallerManifest { arch, path },
            InstallEvent::InstallerManifestRead { manifest },
            t,
        ),
    ensures
        (t matches InstallStep::Failed {
            failure: InstallFailure::Installer { error: InstallError::NoInstallerForArchitecture },
        }) <==> forall|j: int|
            0 <= j < manifest.installers@.len() ==> manifest.installers@[j].architecture != arch,
        forall|i: int|
            0 <= i < manifest.installers@.len() && manifest.installers@[i].architecture == arch
                && (forall|j: int| 0 <= j < i ==> manifest.installers@[j].architecture != arch)
                && manifest.installers@[i].installer_url@.contains('/') ==> (t matches InstallStep::Download {
                url,
                expected_sha256,
                ..
            } && url == manifest.installers@[i].installer_url && expected_sha256
                == manifest.installers@[i].installer_sha256),
{
    if exists|i: int| is_first_installer(manifest, arch, i) {
        let i = choose|i: int| is_first_installer(manifest, arch, i) && after_installer(manifest.installers@[i], t);
        assert forall|i2: int|
            0 <= i2 < manifest.installers@.len() && manifest.installers@[i2].architecture == arch
                && (forall|j: int| 0 <= j < i2 ==> manifest.installers@[j].architecture != arch)
                implies i2 == i by {
            if i2 < i {
                assert(manifest.installers@[i2].architecture != arch);
            } else if i < i2 {
                assert(manifest.installers@[i].architecture != arch);
            }
        }
    } else {
        assert forall|j: int|
            0 <= j < manifest.installers@.len() implies manifest.installers@[j].architecture != arch by {
            if manifest.installers@[j].architecture == arch {
                lemma_first_installer_exists(manifest, arch, j);
            }
        }
    }
}

/// From the installer manifest to running the installer: the chosen
/// installer is downloaded to `/tmp/<file name>`, the file read back is
/// checked against that installer's SHA-256, and the installer is run from
/// that same path exactly when the check passes; when it then exits with
/// success the install is done with that path, else it fails.
pub proof fn lemma_download_checked_then_run(
    arch: Architecture,
    path: String,
    manifest: InstallerManifest,
    t: InstallStep,
    u: InstallStep,
    data: Vec<u8>,
    v: InstallStep,
    success: bool,
    w: InstallStep,
)
    requires
        install_advance_spec(
            InstallStep::ReadInstallerManifest { arch, path },
            InstallEvent::InstallerManifestRead { manifest },
            t,
        ),
        t is Download,
        install_advance_spec(t, InstallEvent::Downloaded, u),
        install_advance_spec(u, InstallEvent::FileRead { data }, v),
        install_advance_spec(v, InstallEvent::InstallerExited { success }, w),
    ensures
        exists|i: int|
            is_first_installer(manifest, arch, i) && {
                let inst = manifest.installers@[i];
                &&& t->Download_url == inst.installer_url
                &&& u == (InstallStep::Verify {
                    file_name: t->Download_file_name,
                    download_path: t->Download_download_path,
                    expected_sha256: inst.installer_sha256,
                })
                &&& (v is Run <==> ascii_lower(hex_lower(sha256_digest(data@))) == ascii_lower(
                    inst.installer_sha256@,
                ))
            },
        t->Download_download_path@ == seq!['/', 't', 'm', 'p', '/'] + t->Download_file_name@,
        v is Run ==> v->Run_download_path == t->Download_download_path,
        v is Run ==> (success <==> w == (InstallStep::Done {
            download_path: t->Download_download_path,
        })),
        v is Run && !success ==> w == (InstallStep::Failed { failure: InstallFailure::InstallerFailed }),
{
    let i = choose|i: int| is_first_installer(manifest, arch, i) && after_installer(manifest.installers@[i], t);
    assert(is_first_installer(manifest, arch, i));
}

/// The packages of one install command, installed in the order given; the
/// first failure stops the ones after it.
pub struct PackageQueue {
    pub packages: Vec<String>,
    pub next: usize,
    pub stopped: bool,
}

impl PackageQueue {
    /// A queue that starts with the first package.
    pub fn new(packages: Vec<String>) -> (r: PackageQueue)
        ensures
            r.packages == packages,
            r.next == 0,
            !r.stopped,
    {
        PackageQueue { packages, next: 0, stopped: false }
    }

    /// The index of the package to install now, if any.
    pub fn current(&self) -> (r: Option<usize>)
        ensures
            r == (if !self.stopped && self.next < self.packages@.len() {
                Some(self.next)
            } else {
                None::<usize>
            }),
    {
        if !self.stopped && self.next < self.packages.len() {
            Some(self.next)
        } else {
            None
        }
    }

    /// Records how installing the current package went: on success the next
    /// one is current, on failure none is. Without a current package nothing changes.
    pub fn finish(&mut self, succeeded: bool)
        ensures
            final(self).packages == old(self).packages,
            (final(self).next as nat, final(self).stopped) == queue_finish(
                (old(self).next as nat, old(self).stopped),
                old(self).packages@.len(),
                succeeded,
            ),
    {
        if !self.stopped && self.next < self.packages.len() {
            if succeeded {
                self.next = self.next + 1;
            } else {
                self.stopped = true;
            }
        }
    }
}

} // verus!
