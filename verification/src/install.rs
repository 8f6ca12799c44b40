//! The checks and choices of installing a package: which installer to take,
//! where to download it, and whether the download has the manifest's checksum.
use vstd::prelude::*;

use crate::error::InstallError;
use crate::schema::{Architecture, Installer, InstallerManifest};
use crate::text::{ascii_lower, chars_of, is_last_index, last_index_of, string_from_chars, to_ascii_lowercase};
use crate::version::{parse_version_req, semver_req_parses, VersionRequirement};

verus! {

/// What SHA-256 (the `sha2` crate) gives for some bytes.
pub uninterp spec fn sha256_digest(data: Seq<u8>) -> Seq<u8>;

/// The lower case hex digit of a number below 16.
pub open spec fn hex_digit(n: int) -> char {
    if n < 10 {
        (48 + n) as char
    } else {
        (87 + n) as char
    }
}

/// Bytes as lower case hex, two digits per byte, high half first.
pub open spec fn hex_lower(bytes: Seq<u8>) -> Seq<char> {
    Seq::new(
        2 * bytes.len(),
        |i: int|
            if i % 2 == 0 {
                hex_digit((bytes[i / 2] / 16) as int)
            } else {
                hex_digit((bytes[i / 2] % 16) as int)
            },
    )
}

/// Calls `sha2::Sha256::digest`. Claims the result is `sha256_digest` of the
/// input and is 32 bytes long; the hash function itself is not stated.
#[verifier::external_body]
fn sha256(data: &[u8]) -> (r: Vec<u8>)
    ensures
        r@ == sha256_digest(data@),
        r@.len() == 32,
{
    <sha2::Sha256 as sha2::Digest>::digest(data).to_vec()
}

/// Calls `hex::encode`, which writes each byte as two lower case hex digits,
/// high half first.
#[verifier::external_body]
fn hex_encode(bytes: &[u8]) -> (r: String)
    ensures
        r@ == hex_lower(bytes@),
{
    hex::encode(bytes)
}

/// The SHA-256 of some bytes, as lower case hex.
pub fn sha256_hex(data: &[u8]) -> (r: String)
    ensures
        r@ == hex_lower(sha256_digest(data@)),
        r@.len() == 64,
{
    let digest = sha256(data);
    hex_encode(digest.as_slice())
}

/// The first installer in the manifest built for `arch`.
pub fn find_installer(manifest: &InstallerManifest, arch: Architecture) -> (r: Result<
    usize,
    InstallError,
>)
    ensures
        match r {
            Ok(i) => i < manifest.installers@.len() && manifest.installers@[i as int].architecture
                == arch && forall|j: int|
                0 <= j < i ==> manifest.installers@[j].architecture != arch,
            Err(e) => e is NoInstallerForArchitecture && forall|j: int|
                0 <= j < manifest.installers@.len() ==> manifest.installers@[j].architecture != arch,
        },
{
    let mut i: usize = 0;
    while i < manifest.installers.len()
        invariant
            i <= manifest.installers@.len(),
            forall|j: int| 0 <= j < i ==> manifest.installers@[j].architecture != arch,
        decreases manifest.installers@.len() - i,
    {
        if manifest.installers[i].architecture == arch {
            return Ok(i);
        }
        i = i + 1;
    }
    Err(InstallError::NoInstallerForArchitecture)
}

/// The file name of an installer: what its URL has after the last `/`.
pub fn installer_file_name(url: &str) -> (r: Result<String, InstallError>)
    ensures
        match r {
            Ok(name) => exists|d: int| is_last_index(url@, '/', d) && name@ == url@.skip(d + 1),
            Err(e) => e is UrlWithoutSlash && !url@.contains('/'),
        },
{
    let cs = chars_of(url);
    match last_index_of(&cs, '/') {
        None => {
            assert(!url@.contains('/'));
            Err(InstallError::UrlWithoutSlash)
        },
        Some(d) => {
            let name = string_from_chars(&cs, d + 1, cs.len());
            assert(name@ =~= url@.skip(d + 1));
            assert(is_last_index(url@, '/', d as int));
            Ok(name)
        },
    }
}

/// An installer's file name holds no `/`, and its URL is what comes before
/// the last `/`, the `/`, and the file name.
pub proof fn lemma_installer_file_name_is_last_segment(url: Seq<char>, d: int, name: Seq<char>)
    requires
        is_last_index(url, '/', d),
        name == url.skip(d + 1),
    ensures
        !name.contains('/'),
        url == url.take(d) + seq!['/'] + name,
{
    assert(url =~= url.take(d) + seq!['/'] + name);
    if name.contains('/') {
        let j = choose|j: int| 0 <= j < name.len() && name[j] == '/';
        assert(url[d + 1 + j] == '/');
    }
}

/// Where an installer is downloaded to: `/tmp/<file name>`.
pub fn download_path(file_name: &str) -> (r: String)
    ensures
        r@ == seq!['/', 't', 'm', 'p', '/'] + file_name@,
{
    let dir = "/tmp/";
    proof {
        reveal_strlit("/tmp/");
    }
    String::from_str(dir).concat(file_name)
}

/// Checks a download's SHA-256 (hex) against the manifest's, up to ASCII case.
/// On a mismatch the error holds both in lower case.
pub fn verify_checksum(actual: &str, expected: &str) -> (r: Result<(), InstallError>)
    ensures
        r is Ok <==> ascii_lower(actual@) == ascii_lower(expected@),
        r matches Err(e) ==> (e matches InstallError::ChecksumMismatch { actual: a, expected: x }
            && a@ == ascii_lower(actual@) && x@ == ascii_lower(expected@)),
{
    let a = to_ascii_lowercase(actual);
    let x = to_ascii_lowercase(expected);
    if a == x {
        Ok(())
    } else {
        Err(InstallError::ChecksumMismatch { actual: a, expected: x })
    }
}

/// Whether a download with SHA-256 `actual` passes the check against the manifest's `expected`.
pub open spec fn checksum_ok(actual: Seq<char>, expected: Seq<char>) -> bool {
    ascii_lower(actual) == ascii_lower(expected)
}

/// The checksum check does not depend on case or on which side is which.
pub proof fn lemma_checksum_check_symmetric_and_case_blind(
    a: Seq<char>,
    b: Seq<char>,
    a2: Seq<char>,
)
    requires
        ascii_lower(a2) == ascii_lower(a),
    ensures
        checksum_ok(a, b) == checksum_ok(b, a),
        checksum_ok(a, b) == checksum_ok(a2, b),
        checksum_ok(a, a),
{
}

/// Parses the optional version requirement of an install: none is no
/// requirement; one that does not parse is an error.
pub fn parse_version_requirement(text: Option<&str>) -> (r: Result<
    Option<VersionRequirement>,
    InstallError,
>)
    ensures
        match text {
            None => r matches Ok(None),
            Some(t) => if semver_req_parses(t@) {
                r matches Ok(Some(q)) && q@ == t@
            } else {
                r matches Err(InstallError::InvalidVersionRequirement { text: x }) && x@ == t@
            },
        },
{
    match text {
        None => Ok(None),
        Some(t) => match parse_version_req(t) {
            Some(q) => Ok(Some(q)),
            None => Err(InstallError::InvalidVersionRequirement { text: String::from_str(t) }),
        },
    }
}

} // verus!
