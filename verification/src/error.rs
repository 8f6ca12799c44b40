//! Errors of the library's lookups and checks.
use vstd::prelude::*;

verus! {

/// Which directory of `manifests/<letter>/<vendor>/<package>` a lookup is at.
#[derive(Clone, Copy, Debug, PartialEq, Eq, Structural)]
pub enum PathLevel {
    Letter,
    Vendor,
    Package,
}

/// Why finding a package, one of its versions or one of its files failed.
#[derive(Clone, Debug)]
pub enum LookupError {
    /// The package name is empty.
    EmptyPackageName,
    /// The package name has no `.` between vendor and package.
    MissingDot { package: String },
    /// `<repo>/manifests` is not a directory.
    ManifestsNotADirectory,
    /// No entry of the right kind has this (lower-cased) name.
    SubpathNotFound { subpath: String },
    /// A directory could not be listed.
    ListingFailed,
    /// No directory name parses as a version that meets the requirement.
    NoVersion,
}

/// Why installing a package failed, beyond finding it.
#[derive(Clone, Debug)]
pub enum InstallError {
    /// The version requirement does not parse.
    InvalidVersionRequirement { text: String },
    /// The installer manifest lists no installer for this architecture.
    NoInstallerForArchitecture,
    /// The installer URL has no `/`.
    UrlWithoutSlash,
    /// The downloaded file's SHA-256 (lower case hex) differs from the manifest's.
    ChecksumMismatch { actual: String, expected: String },
}

} // verus!
