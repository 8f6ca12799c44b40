//! Package identifiers (`Vendor.Package`) and the walk that finds a package's
//! directory `manifests/<letter>/<vendor>/<package>` in the repository,
//! matching each directory name up to ASCII case.
//!
//! The walk is a state machine: the caller performs what the state asks for
//! (check that `manifests` is a directory, or list a directory) and hands the
//! outcome to `PackagePathState::advance`.
use vstd::prelude::*;

use crate::error::{LookupError, PathLevel};
use crate::listing::{
    find_subdir_case_insensitive, has_sub_match, is_first_sub_match, lemma_first_match_unique,
    lemma_lookup_ignores_case, DirEntryInfo, EntryKind,
};
use crate::text::{
    ascii_lower, chars_of, first_index_of, is_first_index, lemma_lower_char_keeps_non_letter,
    lower_char, string_from_chars,
};

verus! {

/// A package name split into its parts: `LLVM.LLVM` has first letter `L`,
/// vendor `LLVM` and name `LLVM`.
#[derive(Clone, Debug)]
pub struct PackageId {
    pub first_letter: String,
    pub vendor: String,
    pub name: String,
}

/// `id` is `package` split at its first `.`, found at `d`.
pub open spec fn splits_at(package: Seq<char>, d: int, id: PackageId) -> bool {
    &&& is_first_index(package, '.', d)
    &&& id.first_letter@ == seq![package[0]]
    &&& id.vendor@ == package.take(d)
    &&& id.name@ == package.skip(d + 1)
}

/// What parsing a package name gives.
pub open spec fn package_id_result(package: Seq<char>, r: Result<PackageId, LookupError>) -> bool {
    if package.len() == 0 {
        r matches Err(LookupError::EmptyPackageName)
    } else if !package.contains('.') {
        r matches Err(LookupError::MissingDot { package: p }) && p@ == package
    } else {
        r matches Ok(id) && exists|d: int| splits_at(package, d, id)
    }
}

/// Splits a package name such as `LLVM.LLVM` into first letter, vendor and
/// name (at the first `.`). An empty name, and a name without `.`, are errors.
pub fn parse_package_id(package: &str) -> (r: Result<PackageId, LookupError>)
    ensures
        package_id_result(package@, r),
{
    let cs = chars_of(package);
    if cs.len() == 0 {
        return Err(LookupError::EmptyPackageName);
    }
    let first_letter = string_from_chars(&cs, 0, 1);
    assert(cs@.subrange(0, 1) =~= seq![package@[0]]);
    match first_index_of(&cs, '.') {
        None => {
            assert(!package@.contains('.'));
            Err(LookupError::MissingDot { package: String::from_str(package) })
        },
        Some(d) => {
            let vendor = string_from_chars(&cs, 0, d);
            let name = string_from_chars(&cs, d + 1, cs.len());
            assert(package@.take(d as int) =~= cs@.subrange(0, d as int));
            assert(package@.skip(d + 1) =~= cs@.subrange(d + 1, cs@.len() as int));
            let id = PackageId { first_letter, vendor, name };
            assert(splits_at(package@, d as int, id));
            assert(package@.contains('.')) by {
                assert(package@[d as int] == '.');
            }
            let r: Result<PackageId, LookupError> = Ok(id);
            assert(r matches Ok(x) && x == id);
            r
        },
    }
}

/// A package name is its vendor, a `.` and its name; the vendor holds no `.`.
pub proof fn lemma_package_id_round_trip(package: Seq<char>, d: int, id: PackageId)
    requires
        splits_at(package, d, id),
    ensures
        id.vendor@ + seq!['.'] + id.name@ == package,
        !id.vendor@.contains('.'),
{
    assert(id.vendor@ + seq!['.'] + id.name@ =~= package);
    if id.vendor@.contains('.') {
        let j = choose|j: int| 0 <= j < id.vendor@.len() && id.vendor@[j] == '.';
        assert(package[j] == '.');
    }
}

/// The name of a package's manifest file: `<vendor>.<name>.yaml`.
pub open spec fn manifest_file_spec(id: PackageId) -> Seq<char> {
    id.vendor@ + seq!['.'] + id.name@ + seq!['.', 'y', 'a', 'm', 'l']
}

/// The name of a package's installer manifest file: `<vendor>.<name>.installer.yaml`.
pub open spec fn installer_manifest_file_spec(id: PackageId) -> Seq<char> {
    id.vendor@ + seq!['.'] + id.name@ + seq![
        '.',
        'i',
        'n',
        's',
        't',
        'a',
        'l',
        'l',
        'e',
        'r',
        '.',
        'y',
        'a',
        'm',
        'l',
    ]
}

/// The file name of a package's manifest, `<vendor>.<name>.yaml`.
pub fn manifest_file_name(id: &PackageId) -> (r: String)
    ensures
        r@ == manifest_file_spec(*id),
{
    let dot = ".";
    let ext = ".yaml";
    proof {
        reveal_strlit(".");
        reveal_strlit(".yaml");
    }
    let r = id.vendor.clone().concat(dot).concat(id.name.as_str()).concat(ext);
    assert(r@ =~= manifest_file_spec(*id));
    r
}

/// The file name of a package's installer manifest, `<vendor>.<name>.installer.yaml`.
pub fn installer_manifest_file_name(id: &PackageId) -> (r: String)
    ensures
        r@ == installer_manifest_file_spec(*id),
{
    let dot = ".";
    let ext = ".installer.yaml";
    proof {
        reveal_strlit(".");
        reveal_strlit(".installer.yaml");
    }
    let r = id.vendor.clone().concat(dot).concat(id.name.as_str()).concat(ext);
    assert(r@ =~= installer_manifest_file_spec(*id));
    r
}

/// Where the walk to a package's directory stands, and so what it needs next.
#[derive(Debug)]
pub enum PackagePathState {
    /// Needs to know whether `<repo>/manifests` is a directory.
    CheckManifests { id: PackageId },
    /// Needs the listing of `manifests`, to find the first-letter directory.
    FindLetter { id: PackageId },
    /// Needs the listing of `manifests/<letter_dir>`, to find the vendor directory.
    FindVendor { id: PackageId, letter_dir: String },
    /// Needs the listing of `manifests/<letter_dir>/<vendor_dir>`, to find the package directory.
    FindPackage { id: PackageId, letter_dir: String, vendor_dir: String },
    /// The package's directory is `manifests/<letter_dir>/<vendor_dir>/<package_dir>`.
    Found { letter_dir: String, vendor_dir: String, package_dir: String },
    /// The walk failed, at a directory level or (`None`) before any.
    Failed { level: Option<PathLevel>, error: LookupError },
}

/// What the caller learned when doing what a state asked for.
#[derive(Debug)]
pub enum PackagePathEvent {
    /// Whether `<repo>/manifests` is a directory.
    ManifestsChecked { is_dir: bool },
    /// The entries of the directory that was asked for, in the order it gave them.
    Listed { entries: Vec<DirEntryInfo> },
    /// The directory that was asked for could not be listed.
    ListingFailed,
}

/// A lookup of the directory `subpath` at `level` in `entries`: on a match,
/// `t` is `found` applied to the name of the first matching directory; else
/// `t` is the not-found failure at that level.
pub open spec fn lookup_step(
    entries: Seq<DirEntryInfo>,
    subpath: Seq<char>,
    level: PathLevel,
    t: PackagePathState,
    found: spec_fn(String) -> PackagePathState,
) -> bool {
    if has_sub_match(entries, subpath, false) {
        exists|i: int| is_first_sub_match(entries, subpath, false, i) && t == found(entries[i].name)
    } else {
        t matches PackagePathState::Failed {
            level: Some(l),
            error: LookupError::SubpathNotFound { subpath: p },
        } && l == level && p@ == ascii_lower(subpath)
    }
}

/// One step of the walk: from state `s`, on event `ev`, to state `t`. An event
/// that the state did not ask for leaves it unchanged.
pub open spec fn advance_spec(s: PackagePathState, ev: PackagePathEvent, t: PackagePathState) -> bool {
    match s {
        PackagePathState::CheckManifests { id } => match ev {
            PackagePathEvent::ManifestsChecked { is_dir } => if is_dir {
                t == PackagePathState::FindLetter { id }
            } else {
                t == PackagePathState::Failed {
                    level: None,
                    error: LookupError::ManifestsNotADirectory,
                }
            },
            _ => t == s,
        },
        PackagePathState::FindLetter { id } => match ev {
            PackagePathEvent::Listed { entries } => lookup_step(
                entries@,
                id.first_letter@,
                PathLevel::Letter,
                t,
                |d: String| PackagePathState::FindVendor { id, letter_dir: d },
            ),
            PackagePathEvent::ListingFailed => t == PackagePathState::Failed {
                level: Some(PathLevel::Letter),
                error: LookupError::ListingFailed,
            },
            _ => t == s,
        },
        PackagePathState::FindVendor { id, letter_dir } => match ev {
            PackagePathEvent::Listed { entries } => lookup_step(
                entries@,
                id.vendor@,
                PathLevel::Vendor,
                t,
                |d: String| PackagePathState::FindPackage { id, letter_dir, vendor_dir: d },
            ),
            PackagePathEvent::ListingFailed => t == PackagePathState::Failed {
                level: Some(PathLevel::Vendor),
                error: LookupError::ListingFailed,
            },
            _ => t == s,
        },
        PackagePathState::FindPackage { id, letter_dir, vendor_dir } => match ev {
            PackagePathEvent::Listed { entries } => lookup_step(
                entries@,
                id.name@,
                PathLevel::Package,
                t,
                |d: String| PackagePathState::Found { letter_dir, vendor_dir, package_dir: d },
            ),
            PackagePathEvent::ListingFailed => t == PackagePathState::Failed {
                level: Some(PathLevel::Package),
                error: LookupError::ListingFailed,
            },
            _ => t == s,
        },
        _ => t == s,
    }
}

/// How the walk starts for `package`: checking `manifests` with the parsed
/// name, or failed at once with the parse error.
pub open spec fn start_walk_spec(package: Seq<char>, r: PackagePathState) -> bool {
    &&& r matches PackagePathState::CheckManifests { id } ==> package_id_result(
        package,
        Ok::<PackageId, LookupError>(id),
    )
    &&& r matches PackagePathState::Failed { level, error } ==> level is None && package_id_result(
        package,
        Err::<PackageId, LookupError>(error),
    )
    &&& r is CheckManifests || r is Failed
}

/// Starts the walk to the directory of `package` (such as `LLVM.LLVM`): a
/// malformed name fails at once, else the walk first checks `manifests`.
pub fn package_path(package: &str) -> (r: PackagePathState)
    ensures
        start_walk_spec(package@, r),
{
    match parse_package_id(package) {
        Ok(id) => PackagePathState::CheckManifests { id },
        Err(error) => PackagePathState::Failed { level: None, error },
    }
}

/// Looks up directory `subpath` in `entries` for the walk.
fn lookup(
    entries: &Vec<DirEntryInfo>,
    subpath: &String,
    level: PathLevel,
) -> (r: Result<String, PackagePathState>)
    ensures
        match r {
            Ok(name) => exists|i: int|
                is_first_sub_match(entries@, subpath@, false, i) && name == entries@[i].name,
            Err(t) => !has_sub_match(entries@, subpath@, false) && (t matches PackagePathState::Failed {
                level: Some(l),
                error: LookupError::SubpathNotFound { subpath: p },
            } && l == level && p@ == ascii_lower(subpath@)),
        },
{
    match find_subdir_case_insensitive(entries, subpath.as_str()) {
        Ok(i) => Ok(entries[i].name.clone()),
        Err(error) => Err(PackagePathState::Failed { level: Some(level), error }),
    }
}

impl PackagePathState {
    /// Takes the walk one step further, with what the caller learned.
    pub fn advance(self, event: PackagePathEvent) -> (r: PackagePathState)
        ensures
            advance_spec(self, event, r),
    {
        match self {
            PackagePathState::CheckManifests { id } => match event {
                PackagePathEvent::ManifestsChecked { is_dir } => if is_dir {
                    PackagePathState::FindLetter { id }
                } else {
                    PackagePathState::Failed {
                        level: None,
                        error: LookupError::ManifestsNotADirectory,
                    }
                },
                _ => PackagePathState::CheckManifests { id },
            },
            PackagePathState::FindLetter { id } => match event {
                PackagePathEvent::Listed { entries } => match lookup(
                    &entries,
                    &id.first_letter,
                    PathLevel::Letter,
                ) {
                    Ok(d) => PackagePathState::FindVendor { id, letter_dir: d },
                    Err(t) => t,
                },
                PackagePathEvent::ListingFailed => PackagePathState::Failed {
                    level: Some(PathLevel::Letter),
                    error: LookupError::ListingFailed,
                },
                _ => PackagePathState::FindLetter { id },
            },
            PackagePathState::FindVendor { id, letter_dir } => match event {
                PackagePathEvent::Listed { entries } => match lookup(
                    &entries,
                    &id.vendor,
                    PathLevel::Vendor,
                ) {
                    Ok(d) => PackagePathState::FindPackage { id, letter_dir, vendor_dir: d },
                    Err(t) => t,
                },
                PackagePathEvent::ListingFailed => PackagePathState::Failed {
                    level: Some(PathLevel::Vendor),
                    error: LookupError::ListingFailed,
                },
                _ => PackagePathState::FindVendor { id, letter_dir },
            },
            PackagePathState::FindPackage { id, letter_dir, vendor_dir } => match event {
                PackagePathEvent::Listed { entries } => match lookup(
                    &entries,
                    &id.name,
                    PathLevel::Package,
                ) {
                    Ok(d) => PackagePathState::Found { letter_dir, vendor_dir, package_dir: d },
                    Err(t) => t,
                },
                PackagePathEvent::ListingFailed => PackagePathState::Failed {
                    level: Some(PathLevel::Package),
                    error: LookupError::ListingFailed,
                },
                _ => PackagePathState::FindPackage { id, letter_dir, vendor_dir },
            },
            other => other,
        }
    }
}

/// The package step looks up the package's name: the walk ends found exactly
/// when some directory of the vendor's listing is named like the package up to
/// ASCII case, and the one found is so named, below the letter and vendor
/// directories found before.
pub proof fn lemma_found_dir_names_package(
    id: PackageId,
    letter_dir: String,
    vendor_dir: String,
    entries: Vec<DirEntryInfo>,
    t: PackagePathState,
)
    requires
        advance_spec(
            PackagePathState::FindPackage { id, letter_dir, vendor_dir },
            PackagePathEvent::Listed { entries },
            t,
        ),
    ensures
        t is Found <==> has_sub_match(entries@, id.name@, false),
        t matches PackagePathState::Found { letter_dir: l2, vendor_dir: v2, package_dir } ==> l2
            == letter_dir && v2 == vendor_dir && ascii_lower(package_dir@) == ascii_lower(id.name@)
            && exists|i: int|
            0 <= i < entries@.len() && entries@[i].kind == EntryKind::Dir && entries@[i].name
                == package_dir,
        t is Failed ==> !has_sub_match(entries@, id.name@, false),
{
}

/// The walk first checks `manifests`: it fails there exactly when that is not
/// a directory, and otherwise goes on to look up the first letter of the same
/// package.
pub proof fn lemma_manifests_checked_first(id: PackageId, is_dir: bool, t: PackagePathState)
    requires
        advance_spec(
            PackagePathState::CheckManifests { id },
            PackagePathEvent::ManifestsChecked { is_dir },
            t,
        ),
    ensures
        is_dir ==> t == (PackagePathState::FindLetter { id }),
        !is_dir ==> t matches PackagePathState::Failed {
            level: None,
            error: LookupError::ManifestsNotADirectory,
        },
{
}

/// The first-letter step looks up the package's first letter: it goes on to
/// the vendor, with the directory found, exactly when some directory of the
/// listing is named that letter up to ASCII case, and the one found is so named.
pub proof fn lemma_letter_step_finds_first_letter(
    id: PackageId,
    entries: Vec<DirEntryInfo>,
    t: PackagePathState,
)
    requires
        advance_spec(PackagePathState::FindLetter { id }, PackagePathEvent::Listed { entries }, t),
    ensures
        t is FindVendor <==> has_sub_match(entries@, id.first_letter@, false),
        t matches PackagePathState::FindVendor { id: id2, letter_dir } ==> id2 == id && ascii_lower(
            letter_dir@,
        ) == ascii_lower(id.first_letter@) && exists|i: int|
            0 <= i < entries@.len() && entries@[i].kind == EntryKind::Dir && entries@[i].name
                == letter_dir,
        t is Failed ==> !has_sub_match(entries@, id.first_letter@, false),
{
}

/// The vendor step looks up the package's vendor: it goes on to the package,
/// with the directory found, exactly when some directory of the listing is
/// named like the vendor up to ASCII case, and the one found is so named.
pub proof fn lemma_vendor_step_finds_vendor(
    id: PackageId,
    letter_dir: String,
    entries: Vec<DirEntryInfo>,
    t: PackagePathState,
)
    requires
        advance_spec(
            PackagePathState::FindVendor { id, letter_dir },
            PackagePathEvent::Listed { entries },
            t,
        ),
    ensures
        t is FindPackage <==> has_sub_match(entries@, id.vendor@, false),
        t matches PackagePathState::FindPackage { id: id2, letter_dir: l2, vendor_dir } ==> id2 == id
            && l2 == letter_dir && ascii_lower(vendor_dir@) == ascii_lower(id.vendor@) && exists|i: int|
            0 <= i < entries@.len() && entries@[i].kind == EntryKind::Dir && entries@[i].name
                == vendor_dir,
        t is Failed ==> !has_sub_match(entries@, id.vendor@, false),
{
}

/// Two package names that are the same up to ASCII case.
pub open spec fn ids_equiv(a: PackageId, b: PackageId) -> bool {
    &&& ascii_lower(a.first_letter@) == ascii_lower(b.first_letter@)
    &&& ascii_lower(a.vendor@) == ascii_lower(b.vendor@)
    &&& ascii_lower(a.name@) == ascii_lower(b.name@)
}

/// Two lookup errors that are the same up to the ASCII case of the package name they quote.
pub open spec fn errors_equiv(a: LookupError, b: LookupError) -> bool {
    match a {
        LookupError::MissingDot { package: p } => b matches LookupError::MissingDot { package: q }
            && ascii_lower(p@) == ascii_lower(q@),
        LookupError::SubpathNotFound { subpath: p } => b matches LookupError::SubpathNotFound {
            subpath: q,
        } && p@ == q@,
        _ => a == b,
    }
}

/// Two walks that stand at the same place, for package names equal up to
/// ASCII case: same step, same directories found, equivalent errors.
pub open spec fn path_states_equiv(s: PackagePathState, t: PackagePathState) -> bool {
    match s {
        PackagePathState::CheckManifests { id: a } => t matches PackagePathState::CheckManifests {
            id: b,
        } && ids_equiv(a, b),
        PackagePathState::FindLetter { id: a } => t matches PackagePathState::FindLetter { id: b }
            && ids_equiv(a, b),
        PackagePathState::FindVendor { id: a, letter_dir: l } => t matches PackagePathState::FindVendor {
            id: b,
            letter_dir: l2,
        } && ids_equiv(a, b) && l == l2,
        PackagePathState::FindPackage { id: a, letter_dir: l, vendor_dir: v } => t matches PackagePathState::FindPackage {
            id: b,
            letter_dir: l2,
            vendor_dir: v2,
        } && ids_equiv(a, b) && l == l2 && v == v2,
        PackagePathState::Found { .. } => t == s,
        PackagePathState::Failed { level: l, error: e } => t matches PackagePathState::Failed {
            level: l2,
            error: e2,
        } && l == l2 && errors_equiv(e, e2),
    }
}

/// Folding case commutes with taking a prefix, a suffix, and the first character.
proof fn lemma_ascii_lower_parts(s: Seq<char>, d: int)
    requires
        0 <= d < s.len(),
    ensures
        ascii_lower(s.take(d)) == ascii_lower(s).take(d),
        ascii_lower(s.skip(d + 1)) == ascii_lower(s).skip(d + 1),
        ascii_lower(seq![s[0]]) == seq![ascii_lower(s)[0]],
{
    assert(ascii_lower(s.take(d)) =~= ascii_lower(s).take(d));
    assert(ascii_lower(s.skip(d + 1)) =~= ascii_lower(s).skip(d + 1));
    assert(ascii_lower(seq![s[0]]) =~= seq![ascii_lower(s)[0]]);
}

/// Names equal up to ASCII case have their `.` in the same places.
proof fn lemma_dots_ignore_case(a: Seq<char>, b: Seq<char>)
    requires
        ascii_lower(a) == ascii_lower(b),
    ensures
        a.len() == b.len(),
        forall|i: int| 0 <= i < a.len() ==> (a[i] == '.') == (b[i] == '.'),
{
    assert(ascii_lower(a).len() == a.len());
    assert forall|i: int| 0 <= i < a.len() implies (a[i] == '.') == (b[i] == '.') by {
        assert(ascii_lower(a)[i] == lower_char(a[i]));
        assert(ascii_lower(b)[i] == lower_char(b[i]));
        lemma_lower_char_keeps_non_letter(a[i], '.');
        lemma_lower_char_keeps_non_letter(b[i], '.');
        if a[i] == '.' {
            assert(lower_char(b[i]) == '.');
        }
        if b[i] == '.' {
            assert(lower_char(a[i]) == '.');
        }
    }
}

/// Starting the walk does not depend on the case of the package name: two
/// names equal up to ASCII case start at equivalent states.
pub proof fn lemma_start_ignores_case(
    a: Seq<char>,
    b: Seq<char>,
    ra: PackagePathState,
    rb: PackagePathState,
)
    requires
        ascii_lower(a) == ascii_lower(b),
        start_walk_spec(a, ra),
        start_walk_spec(b, rb),
    ensures
        path_states_equiv(ra, rb),
{
    lemma_dots_ignore_case(a, b);
    assert(a.contains('.') == b.contains('.')) by {
        if a.contains('.') {
            let i = choose|i: int| 0 <= i < a.len() && a[i] == '.';
            assert(b[i] == '.');
        }
        if b.contains('.') {
            let i = choose|i: int| 0 <= i < b.len() && b[i] == '.';
            assert(a[i] == '.');
        }
    }
    if a.len() > 0 && a.contains('.') {
        let ida = ra->CheckManifests_id;
        let idb = rb->CheckManifests_id;
        let da = choose|d: int| splits_at(a, d, ida);
        let db = choose|d: int| splits_at(b, d, idb);
        if da < db {
            assert(b[da] == '.');
        } else if db < da {
            assert(a[db] == '.');
        }
        lemma_ascii_lower_parts(a, da);
        lemma_ascii_lower_parts(b, da);
        assert(ascii_lower(a)[0] == ascii_lower(b)[0]);
        assert(ids_equiv(ida, idb));
    }
}

/// Looking a directory up for two names equal up to ASCII case leads to
/// equivalent states, where what follows a find is equivalent.
proof fn lemma_lookup_step_ignores_case(
    entries: Seq<DirEntryInfo>,
    sub1: Seq<char>,
    sub2: Seq<char>,
    level: PathLevel,
    t1: PackagePathState,
    t2: PackagePathState,
    f1: spec_fn(String) -> PackagePathState,
    f2: spec_fn(String) -> PackagePathState,
)
    requires
        ascii_lower(sub1) == ascii_lower(sub2),
        lookup_step(entries, sub1, level, t1, f1),
        lookup_step(entries, sub2, level, t2, f2),
        forall|n: String| path_states_equiv(#[trigger] f1(n), f2(n)),
    ensures
        path_states_equiv(t1, t2),
{
    if has_sub_match(entries, sub1, false) {
        lemma_lookup_ignores_case(entries, sub1, sub2, false, 0);
        let i1 = choose|i: int| is_first_sub_match(entries, sub1, false, i) && t1 == f1(entries[i].name);
        let i2 = choose|i: int| is_first_sub_match(entries, sub2, false, i) && t2 == f2(entries[i].name);
        lemma_lookup_ignores_case(entries, sub1, sub2, false, i2);
        lemma_first_match_unique(entries, sub1, false, i1, i2);
        assert(path_states_equiv(f1(entries[i1].name), f2(entries[i1].name)));
    } else {
        lemma_lookup_ignores_case(entries, sub1, sub2, false, 0);
    }
}

/// Each step of the walk keeps two walks for names equal up to ASCII case
/// equivalent: given the same outcomes, they find the same directories and
/// fail alike. With `lemma_start_ignores_case`, the whole walk does not
/// depend on the case of the package name.
pub proof fn lemma_advance_ignores_case(
    s1: PackagePathState,
    s2: PackagePathState,
    ev: PackagePathEvent,
    t1: PackagePathState,
    t2: PackagePathState,
)
    requires
        path_states_equiv(s1, s2),
        advance_spec(s1, ev, t1),
        advance_spec(s2, ev, t2),
    ensures
        path_states_equiv(t1, t2),
{
    match s1 {
        PackagePathState::FindLetter { id: a } => {
            let b = s2->FindLetter_id;
            if let PackagePathEvent::Listed { entries } = ev {
                lemma_lookup_step_ignores_case(
                    entries@,
                    a.first_letter@,
                    b.first_letter@,
                    PathLevel::Letter,
                    t1,
                    t2,
                    |d: String| PackagePathState::FindVendor { id: a, letter_dir: d },
                    |d: String| PackagePathState::FindVendor { id: b, letter_dir: d },
                );
            }
        },
        PackagePathState::FindVendor { id: a, letter_dir: l } => {
            let b = s2->FindVendor_id;
            if let PackagePathEvent::Listed { entries } = ev {
                lemma_lookup_step_ignores_case(
                    entries@,
                    a.vendor@,
                    b.vendor@,
                    PathLevel::Vendor,
                    t1,
                    t2,
                    |d: String| PackagePathState::FindPackage { id: a, letter_dir: l, vendor_dir: d },
                    |d: String| PackagePathState::FindPackage { id: b, letter_dir: l, vendor_dir: d },
                );
            }
        },
        PackagePathState::FindPackage { id: a, letter_dir: l, vendor_dir: v } => {
            let b = s2->FindPackage_id;
            if let PackagePathEvent::Listed { entries } = ev {
                lemma_lookup_step_ignores_case(
                    entries@,
                    a.name@,
                    b.name@,
                    PathLevel::Package,
                    t1,
                    t2,
                    |d: String| PackagePathState::Found { letter_dir: l, vendor_dir: v, package_dir: d },
                    |d: String| PackagePathState::Found { letter_dir: l, vendor_dir: v, package_dir: d },
                );
            }
        },
        _ => {},
    }
}

} // verus!
