//! The parts of a winget manifest that installing reads.
use vstd::prelude::*;

verus! {

/// The kind of an installer.
#[derive(Clone, Copy, Debug, PartialEq, Eq, Structural)]
pub enum InstallerType {
    Exe,
    Zip,
    Wix,
    Msix,
    Nullsoft,
    Inno,
}

/// A processor architecture an installer is built for.
#[derive(Clone, Copy, Debug, PartialEq, Eq, Structural)]
pub enum Architecture {
    X86,
    X64,
    Arm,
    Arm64,
}

/// A package's version manifest (`<vendor>.<package>.yaml`).
#[derive(Clone, Debug)]
pub struct PackageManifest {
    pub package_identifier: String,
    pub package_version: String,
    pub default_locale: String,
    pub manifest_type: String,
    pub manifest_version: Option<String>,
}

/// One installer of a package: where to download it and its checksum.
#[derive(Clone, Debug)]
pub struct Installer {
    pub architecture: Architecture,
    pub installer_url: String,
    pub installer_sha256: String,
    pub installer_type: Option<InstallerType>,
}

/// Command line switches of an installer.
#[derive(Clone, Debug)]
pub struct InstallerSwitches {
    pub silent: Option<String>,
    pub log: Option<String>,
    pub silent_with_progress: Option<String>,
    pub install_location: Option<String>,
    pub custom: Option<String>,
}

/// A package's installer manifest (`<vendor>.<package>.installer.yaml`).
#[derive(Clone, Debug)]
pub struct InstallerManifest {
    pub package_identifier: String,
    pub package_version: String,
    pub installers: Vec<Installer>,
    pub install_modes: Option<Vec<String>>,
    pub installer_switches: Option<InstallerSwitches>,
    pub installer_type: Option<InstallerType>,
}

} // verus!
