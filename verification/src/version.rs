//! Versions of a package: parsing directory names as SemVer versions (through
//! the `semver` crate), checking them against a requirement, and choosing the
//! newest one.
use vstd::prelude::*;

use crate::error::LookupError;
use crate::listing::{DirEntryInfo, EntryKind};
use crate::text::{chars_lt, lemma_chars_lt_asymmetric, lemma_chars_lt_transitive, str_lt};

verus! {

#[verifier::external_type_specification]
#[verifier::external_body]
pub struct ExSemverVersion(semver::Version);

#[verifier::external_type_specification]
#[verifier::external_body]
pub struct ExSemverVersionReq(semver::VersionReq);

#[verifier::external_type_specification]
#[verifier::external_body]
pub struct ExSemverError(semver::Error);

/// A version as plain values: major, minor, patch, pre-release and build metadata.
pub type VersionKey = (u64, u64, u64, Seq<char>, Seq<char>);

/// What `semver::Version::parse` gives for a text, as plain values
/// (`None` where it returns an error).
pub uninterp spec fn semver_parse(text: Seq<char>) -> Option<(u64, u64, u64, Seq<char>, Seq<char>)>;

/// Whether `semver::Version`'s order puts the first version strictly before the second.
pub uninterp spec fn semver_precedes(
    a: (u64, u64, u64, Seq<char>, Seq<char>),
    b: (u64, u64, u64, Seq<char>, Seq<char>),
) -> bool;

/// Whether `semver::VersionReq::parse` accepts a text.
pub uninterp spec fn semver_req_parses(text: Seq<char>) -> bool;

/// Whether the requirement parsed from a text matches a version
/// (`semver::VersionReq::matches`).
pub uninterp spec fn semver_req_matches(
    req: Seq<char>,
    v: (u64, u64, u64, Seq<char>, Seq<char>),
) -> bool;

/// The numeric part of `a` is strictly below that of `b`, in the order
/// major, then minor, then patch.
pub open spec fn triple_lt(a: VersionKey, b: VersionKey) -> bool {
    a.0 < b.0 || (a.0 == b.0 && (a.1 < b.1 || (a.1 == b.1 && a.2 < b.2)))
}

/// `a` is a pre-release of the release `b`: the same major, minor and patch,
/// with a pre-release part where `b` has none.
pub open spec fn release_over_pre(a: VersionKey, b: VersionKey) -> bool {
    a.0 == b.0 && a.1 == b.1 && a.2 == b.2 && a.3.len() > 0 && b.3.len() == 0
}

/// `a` is not older than `b` in the parts of SemVer order stated here: not
/// lower in major, minor and patch, and not a pre-release of the release `b`.
pub open spec fn not_below(a: VersionKey, b: VersionKey) -> bool {
    !triple_lt(a, b) && !release_over_pre(a, b)
}

/// A parsed SemVer version. Its fields are copies of those of the
/// `semver::Version` it holds; the fields are private, so only parsing makes one.
#[derive(Debug)]
pub struct SemVersion {
    major: u64,
    minor: u64,
    patch: u64,
    pre: String,
    build: String,
    raw: semver::Version,
}

impl View for SemVersion {
    type V = (u64, u64, u64, Seq<char>, Seq<char>);

    closed spec fn view(&self) -> (u64, u64, u64, Seq<char>, Seq<char>) {
        (self.major, self.minor, self.patch, self.pre@, self.build@)
    }
}

impl SemVersion {
    /// The major version number.
    pub fn major(&self) -> (r: u64)
        ensures
            r == self@.0,
    {
        self.major
    }

    /// The minor version number.
    pub fn minor(&self) -> (r: u64)
        ensures
            r == self@.1,
    {
        self.minor
    }

    /// The patch version number.
    pub fn patch(&self) -> (r: u64)
        ensures
            r == self@.2,
    {
        self.patch
    }

    /// The pre-release part (empty for a release).
    pub fn pre(&self) -> (r: &str)
        ensures
            r@ == self@.3,
    {
        self.pre.as_str()
    }

    /// The build metadata (empty where there is none).
    pub fn build(&self) -> (r: &str)
        ensures
            r@ == self@.4,
    {
        self.build.as_str()
    }
}

/// A parsed version requirement, known by the text it was parsed from.
#[derive(Debug)]
pub struct VersionRequirement {
    text: String,
    raw: semver::VersionReq,
}

impl View for VersionRequirement {
    type V = Seq<char>;

    closed spec fn view(&self) -> Seq<char> {
        self.text@
    }
}

impl VersionRequirement {
    /// The text the requirement was parsed from.
    pub fn text(&self) -> (r: &str)
        ensures
            r@ == self@,
    {
        self.text.as_str()
    }
}

/// Calls `semver::Version::parse`. Claims that it succeeds exactly where the
/// name `semver_parse` says so, and that the fields of the parsed version are
/// those `semver_parse` names; what the grammar accepts is not stated.
#[verifier::external_body]
fn parse_semver(text: &str) -> (r: Result<SemVersion, semver::Error>)
    ensures
        r is Ok <==> semver_parse(text@) is Some,
        r matches Ok(v) ==> semver_parse(text@) == Some(v@),
{
    match semver::Version::parse(text) {
        Ok(v) => Ok(
            SemVersion {
                major: v.major,
                minor: v.minor,
                patch: v.patch,
                pre: v.pre.as_str().to_string(),
                build: v.build.as_str().to_string(),
                raw: v,
            },
        ),
        Err(e) => Err(e),
    }
}

/// Calls `<semver::Version as PartialOrd>::lt` on the two versions. Claims the
/// result is `semver_precedes` of their fields, and the parts of that order that
/// the derived `Ord` of `semver::Version` and the `Ord` of `Prerelease` fix:
/// major, minor and patch are compared first; with those equal a pre-release
/// sorts before the release; equal fields are not ordered. How two non-empty
/// pre-releases or build metadata compare is not stated.
#[verifier::external_body]
fn semver_lt(a: &SemVersion, b: &SemVersion) -> (r: bool)
    ensures
        r == semver_precedes(a@, b@),
        triple_lt(a@, b@) ==> r,
        triple_lt(b@, a@) ==> !r,
        a@.0 == b@.0 && a@.1 == b@.1 && a@.2 == b@.2 && a@.3.len() == 0 && b@.3.len() > 0 ==> !r,
        a@.0 == b@.0 && a@.1 == b@.1 && a@.2 == b@.2 && a@.3.len() > 0 && b@.3.len() == 0 ==> r,
        a@ == b@ ==> !r,
{
    a.raw < b.raw
}

/// Calls `semver::VersionReq::parse`. Claims that it succeeds exactly where
/// `semver_req_parses` says so; the accepted grammar is not stated.
#[verifier::external_body]
fn parse_semver_req(text: &str) -> (r: Result<VersionRequirement, semver::Error>)
    ensures
        r is Ok <==> semver_req_parses(text@),
        r matches Ok(q) ==> q@ == text@,
{
    match semver::VersionReq::parse(text) {
        Ok(q) => Ok(VersionRequirement { text: text.to_string(), raw: q }),
        Err(e) => Err(e),
    }
}

/// Calls `semver::VersionReq::matches`. Claims the result is
/// `semver_req_matches` of the requirement's text and the version's fields;
/// which versions a requirement matches is not stated.
#[verifier::external_body]
fn semver_req_match(req: &VersionRequirement, v: &SemVersion) -> (r: bool)
    ensures
        r == semver_req_matches(req@, v@),
{
    req.raw.matches(&v.raw)
}

/// Parses a text as a SemVer version.
pub fn parse_version(text: &str) -> (r: Option<SemVersion>)
    ensures
        match r {
            Some(v) => semver_parse(text@) == Some(v@),
            None => semver_parse(text@) is None,
        },
{
    match parse_semver(text) {
        Ok(v) => Some(v),
        Err(_) => None,
    }
}

/// Parses a version requirement such as `>=1.2, <2`.
pub fn parse_version_req(text: &str) -> (r: Option<VersionRequirement>)
    ensures
        r is Some <==> semver_req_parses(text@),
        r matches Some(q) ==> q@ == text@,
{
    match parse_semver_req(text) {
        Ok(q) => Some(q),
        Err(_) => None,
    }
}

/// Whether `a` comes strictly before `b` in SemVer order.
pub fn version_lt(a: &SemVersion, b: &SemVersion) -> (r: bool)
    ensures
        r == semver_precedes(a@, b@),
        triple_lt(a@, b@) ==> r,
        triple_lt(b@, a@) ==> !r,
        release_over_pre(a@, b@) ==> r,
        release_over_pre(b@, a@) ==> !r,
{
    semver_lt(a, b)
}

/// Whether two versions are equal in every field.
pub fn version_eq(a: &SemVersion, b: &SemVersion) -> (r: bool)
    ensures
        r == (a@ == b@),
{
    a.major == b.major && a.minor == b.minor && a.patch == b.patch && a.pre == b.pre && a.build
        == b.build
}

/// Whether `req` matches `v`.
pub fn requirement_matches(req: &VersionRequirement, v: &SemVersion) -> (r: bool)
    ensures
        r == semver_req_matches(req@, v@),
{
    semver_req_match(req, v)
}

/// A version is acceptable: there is no requirement, or it matches it.
pub open spec fn accepts(req: Option<Seq<char>>, k: VersionKey) -> bool {
    match req {
        None => true,
        Some(q) => semver_req_matches(q, k),
    }
}

/// The view of an optional requirement.
pub open spec fn req_view(req: Option<&VersionRequirement>) -> Option<Seq<char>> {
    match req {
        None => None,
        Some(q) => Some(q@),
    }
}

/// The version a directory name stands for: the name parsed as SemVer if that
/// succeeds and is acceptable; else the name with `.0` appended (a
/// `major.minor` directory), if that parses and is acceptable; else none.
pub open spec fn candidate_of(name: Seq<char>, req: Option<Seq<char>>) -> Option<VersionKey> {
    if semver_parse(name) is Some && accepts(req, semver_parse(name)->0) {
        semver_parse(name)
    } else if semver_parse(name + seq!['.', '0']) is Some && accepts(
        req,
        semver_parse(name + seq!['.', '0'])->0,
    ) {
        semver_parse(name + seq!['.', '0'])
    } else {
        None
    }
}

/// Entry `i` holds an acceptable version that no other acceptable version is
/// above: none is higher in major, minor and patch, and none is the release
/// of which it is a pre-release.
pub open spec fn chosen_is_max(entries: Seq<DirEntryInfo>, req: Option<Seq<char>>, i: int) -> bool {
    &&& 0 <= i < entries.len()
    &&& entry_candidate(entries[i], req) is Some
    &&& forall|j: int|
        0 <= j < entries.len() && entry_candidate(entries[j], req) is Some ==> not_below(
            entry_candidate(entries[i], req)->0,
            #[trigger] entry_candidate(entries[j], req)->0,
        )
}

/// The version of a directory entry, if it is a directory with an acceptable version name.
pub open spec fn entry_candidate(e: DirEntryInfo, req: Option<Seq<char>>) -> Option<VersionKey> {
    if e.kind == EntryKind::Dir {
        candidate_of(e.name@, req)
    } else {
        None
    }
}

/// The order of (version, path) pairs: by version, then by name.
pub open spec fn entry_lt(k1: VersionKey, n1: Seq<char>, k2: VersionKey, n2: Seq<char>) -> bool {
    semver_precedes(k1, k2) || (k1 == k2 && chars_lt(n1, n2))
}

/// The newest acceptable version among the first `n` entries, with its index:
/// each candidate replaces the one kept so far when the kept one sorts before it.
pub open spec fn newest_in(entries: Seq<DirEntryInfo>, req: Option<Seq<char>>, n: nat) -> Option<
    (int, VersionKey),
>
    decreases n,
{
    if n == 0 {
        None
    } else {
        let prev = newest_in(entries, req, (n - 1) as nat);
        let e = entries[n - 1];
        match entry_candidate(e, req) {
            None => prev,
            Some(k) => match prev {
                None => Some(((n - 1) as int, k)),
                Some(p) => if entry_lt(p.1, entries[p.0].name@, k, e.name@) {
                    Some(((n - 1) as int, k))
                } else {
                    prev
                },
            },
        }
    }
}

/// The version a directory name stands for, if it is acceptable.
pub fn version_candidate(name: &str, req: Option<&VersionRequirement>) -> (r: Option<SemVersion>)
    ensures
        match r {
            Some(v) => candidate_of(name@, req_view(req)) == Some(v@),
            None => candidate_of(name@, req_view(req)) is None,
        },
{
    if let Some(v) = parse_version(name) {
        let ok = match req {
            None => true,
            Some(q) => requirement_matches(q, &v),
        };
        if ok {
            return Some(v);
        }
    }
    let suffix = ".0";
    proof {
        reveal_strlit(".0");
    }
    let padded = String::from_str(name).concat(suffix);
    assert(padded@ == name@ + seq!['.', '0']);
    if let Some(v) = parse_version(padded.as_str()) {
        let ok = match req {
            None => true,
            Some(q) => requirement_matches(q, &v),
        };
        if ok {
            return Some(v);
        }
    }
    None
}

/// Picks, among the directories of a package's listing whose names stand for
/// a version that meets `req`, the newest (ties broken by name), and returns
/// its index. A name `major.minor` stands for `major.minor.0`.
pub fn find_version(entries: &Vec<DirEntryInfo>, req: Option<&VersionRequirement>) -> (r: Result<
    usize,
    LookupError,
>)
    ensures
        match r {
            Ok(i) => newest_in(entries@, req_view(req), entries@.len()) matches Some(p) && p.0
                == i as int,
            Err(e) => newest_in(entries@, req_view(req), entries@.len()) is None && e is NoVersion,
        },
        r matches Ok(i) ==> chosen_is_max(entries@, req_view(req), i as int),
{
    let ghost rq = req_view(req);
    let mut best: Option<(usize, SemVersion)> = None;
    let mut i: usize = 0;
    while i < entries.len()
        invariant
            rq == req_view(req),
            i <= entries.len(),
            match best {
                None => newest_in(entries@, rq, i as nat) is None,
                Some(b) => newest_in(entries@, rq, i as nat) == Some((b.0 as int, b.1@)) && b.0 < i
                    && entry_candidate(entries@[b.0 as int], rq) == Some(b.1@),
            },
            best matches Some(b) ==> forall|j: int|
                0 <= j < i && entry_candidate(entries@[j], rq) is Some ==> not_below(
                    b.1@,
                    #[trigger] entry_candidate(entries@[j], rq)->0,
                ),
            best is None ==> forall|j: int| 0 <= j < i ==> entry_candidate(entries@[j], rq) is None,
        decreases entries.len() - i,
    {
        let e = &entries[i];
        if e.kind == EntryKind::Dir {
            match version_candidate(e.name.as_str(), req) {
                None => {},
                Some(v) => {
                    let replace = match &best {
                        None => true,
                        Some(b) => {
                            let lt = version_lt(&b.1, &v);
                            if lt {
                                true
                            } else {
                                let same = version_eq(&b.1, &v);
                                same && str_lt(entries[b.0].name.as_str(), e.name.as_str())
                            }
                        },
                    };
                    if replace {
                        best = Some((i, v));
                    }
                },
            }
        }
        i = i + 1;
    }
    match best {
        Some(b) => Ok(b.0),
        None => Err(LookupError::NoVersion),
    }
}

/// The chosen entry is a directory whose version meets the requirement.
pub proof fn lemma_newest_is_acceptable(entries: Seq<DirEntryInfo>, req: Option<Seq<char>>, n: nat)
    requires
        n <= entries.len(),
    ensures
        newest_in(entries, req, n) matches Some(p) ==> 0 <= p.0 < n && entries[p.0].kind
            == EntryKind::Dir && candidate_of(entries[p.0].name@, req) == Some(p.1) && accepts(
            req,
            p.1,
        ),
    decreases n,
{
    if n > 0 {
        lemma_newest_is_acceptable(entries, req, (n - 1) as nat);
    }
}

/// A version is chosen exactly when some directory's name stands for an
/// acceptable version.
pub proof fn lemma_newest_exists_iff_candidate(
    entries: Seq<DirEntryInfo>,
    req: Option<Seq<char>>,
    n: nat,
)
    requires
        n <= entries.len(),
    ensures
        newest_in(entries, req, n) is Some <==> exists|j: int|
            0 <= j < n && entry_candidate(entries[j], req) is Some,
    decreases n,
{
    if n > 0 {
        lemma_newest_exists_iff_candidate(entries, req, (n - 1) as nat);
        if entry_candidate(entries[n - 1], req) is Some {
            assert(exists|j: int| 0 <= j < n && entry_candidate(entries[j], req) is Some) by {
                assert(entry_candidate(entries[n - 1], req) is Some);
            }
        } else {
            if exists|j: int| 0 <= j < n && entry_candidate(entries[j], req) is Some {
                let j = choose|j: int| 0 <= j < n && entry_candidate(entries[j], req) is Some;
                assert(j < n - 1);
            }
        }
    }
}

/// Dropping the requirement never gives an older version: the version chosen
/// without a requirement is not below the one chosen with requirement `q`
/// (neither lower in major, minor and patch, nor a pre-release of it). This
/// holds where the requirement-chosen directory's version is its name parsed
/// as it stands (or its name does not parse alone); where `q` accepted only
/// the name with `.0` appended, the two choices read that directory as
/// different versions.
pub proof fn lemma_dropping_requirement_not_older(
    entries: Seq<DirEntryInfo>,
    q: Seq<char>,
    i: int,
    j: int,
)
    requires
        chosen_is_max(entries, None, i),
        chosen_is_max(entries, Some(q), j),
        semver_parse(entries[j].name@) is Some ==> semver_req_matches(
            q,
            semver_parse(entries[j].name@)->0,
        ),
    ensures
        not_below(
            entry_candidate(entries[i], None)->0,
            entry_candidate(entries[j], Some(q))->0,
        ),
{
    assert(entry_candidate(entries[j], None) == entry_candidate(entries[j], Some(q)));
}

/// `semver_precedes` is a strict order (asymmetric, so irreflexive, and
/// transitive) on the acceptable versions of `entries`, as the `Ord` of
/// `semver::Version` is.
pub open spec fn precedes_is_strict_order_on(entries: Seq<DirEntryInfo>, req: Option<Seq<char>>) -> bool {
    &&& forall|x: int, y: int|
        0 <= x < entries.len() && 0 <= y < entries.len() && entry_candidate(entries[x], req) is Some
            && entry_candidate(entries[y], req) is Some && #[trigger] semver_precedes(
            entry_candidate(entries[x], req)->0,
            entry_candidate(entries[y], req)->0,
        ) ==> !semver_precedes(
            entry_candidate(entries[y], req)->0,
            entry_candidate(entries[x], req)->0,
        )
    &&& forall|x: int, y: int, z: int|
        0 <= x < entries.len() && 0 <= y < entries.len() && 0 <= z < entries.len()
            && entry_candidate(entries[x], req) is Some && entry_candidate(entries[y], req) is Some
            && entry_candidate(entries[z], req) is Some && #[trigger] semver_precedes(
            entry_candidate(entries[x], req)->0,
            entry_candidate(entries[y], req)->0,
        ) && #[trigger] semver_precedes(
            entry_candidate(entries[y], req)->0,
            entry_candidate(entries[z], req)->0,
        ) ==> semver_precedes(
            entry_candidate(entries[x], req)->0,
            entry_candidate(entries[z], req)->0,
        )
}

/// The chosen version is the newest in SemVer order: with SemVer's order
/// being a strict order, no acceptable version among the entries looked at is
/// strictly after the chosen one (two pre-releases of one release included).
pub proof fn lemma_newest_is_semver_maximum(entries: Seq<DirEntryInfo>, req: Option<Seq<char>>, n: nat)
    requires
        n <= entries.len(),
        precedes_is_strict_order_on(entries, req),
    ensures
        newest_in(entries, req, n) matches Some(p) ==> forall|j: int|
            0 <= j < n && entry_candidate(entries[j], req) is Some ==> !semver_precedes(
                p.1,
                #[trigger] entry_candidate(entries[j], req)->0,
            ),
    decreases n,
{
    if n > 0 {
        lemma_newest_is_semver_maximum(entries, req, (n - 1) as nat);
        lemma_newest_is_acceptable(entries, req, (n - 1) as nat);
        lemma_newest_exists_iff_candidate(entries, req, (n - 1) as nat);
        let prev = newest_in(entries, req, (n - 1) as nat);
        let last = (n - 1) as int;
        if let Some(k) = entry_candidate(entries[last], req) {
            // The last candidate does not follow itself.
            assert(!semver_precedes(k, k)) by {
                assert(entry_candidate(entries[last], req)->0 == k);
            }
            match prev {
                None => {
                    assert forall|j: int|
                        0 <= j < n && entry_candidate(entries[j], req) is Some implies !semver_precedes(
                        k,
                        #[trigger] entry_candidate(entries[j], req)->0,
                    ) by {
                        if j < last {
                            assert(exists|jj: int|
                                0 <= jj < n - 1 && entry_candidate(entries[jj], req) is Some);
                        }
                    }
                },
                Some(p) => {
                    let kp = p.1;
                    assert(entry_candidate(entries[p.0], req)->0 == kp);
                    if entry_lt(kp, entries[p.0].name@, k, entries[last].name@) {
                        assert forall|j: int|
                            0 <= j < n && entry_candidate(entries[j], req) is Some implies !semver_precedes(
                            k,
                            #[trigger] entry_candidate(entries[j], req)->0,
                        ) by {
                            if j < last {
                                let kj = entry_candidate(entries[j], req)->0;
                                assert(!semver_precedes(kp, kj));
                                if semver_precedes(k, kj) && semver_precedes(kp, k) {
                                    assert(semver_precedes(
                                        entry_candidate(entries[p.0], req)->0,
                                        entry_candidate(entries[last], req)->0,
                                    ));
                                    assert(semver_precedes(
                                        entry_candidate(entries[last], req)->0,
                                        entry_candidate(entries[j], req)->0,
                                    ));
                                }
                            }
                        }
                    } else {
                        assert(!semver_precedes(kp, k));
                    }
                },
            }
        }
    }
}

/// Among directories of the chosen version, the chosen one has the greatest
/// name: with SemVer's order being a strict order, no acceptable directory of
/// the same version sorts after it by name (as the greatest path of the
/// original's sorted list is taken).
pub proof fn lemma_newest_breaks_ties_by_name(entries: Seq<DirEntryInfo>, req: Option<Seq<char>>, n: nat)
    requires
        n <= entries.len(),
        precedes_is_strict_order_on(entries, req),
    ensures
        newest_in(entries, req, n) matches Some(p) ==> forall|j: int|
            0 <= j < n && #[trigger] entry_candidate(entries[j], req) == Some(p.1) ==> !chars_lt(
                entries[p.0].name@,
                entries[j].name@,
            ),
    decreases n,
{
    if n > 0 {
        let last = (n - 1) as int;
        lemma_newest_breaks_ties_by_name(entries, req, (n - 1) as nat);
        lemma_newest_is_semver_maximum(entries, req, (n - 1) as nat);
        lemma_newest_is_acceptable(entries, req, (n - 1) as nat);
        lemma_newest_exists_iff_candidate(entries, req, (n - 1) as nat);
        let prev = newest_in(entries, req, (n - 1) as nat);
        if let Some(k) = entry_candidate(entries[last], req) {
            let nl = entries[last].name@;
            lemma_chars_lt_asymmetric(nl, nl);
            assert(!semver_precedes(k, k)) by {
                assert(entry_candidate(entries[last], req)->0 == k);
            }
            match prev {
                None => {
                    assert forall|j: int|
                        0 <= j < n && #[trigger] entry_candidate(entries[j], req) == Some(k) implies !chars_lt(
                        nl,
                        entries[j].name@,
                    ) by {
                        if j < last {
                            assert(exists|jj: int|
                                0 <= jj < n - 1 && entry_candidate(entries[jj], req) is Some);
                        }
                    }
                },
                Some(p) => {
                    let kp = p.1;
                    let np = entries[p.0].name@;
                    assert(entry_candidate(entries[p.0], req)->0 == kp);
                    if entry_lt(kp, np, k, nl) {
                        assert forall|j: int|
                            0 <= j < n && #[trigger] entry_candidate(entries[j], req) == Some(k) implies !chars_lt(
                            nl,
                            entries[j].name@,
                        ) by {
                            if j < last {
                                let nj = entries[j].name@;
                                assert(entry_candidate(entries[j], req)->0 == k);
                                if semver_precedes(kp, k) {
                                    assert(!semver_precedes(kp, entry_candidate(entries[j], req)->0));
                                } else {
                                    // same version as the one kept: its name came first
                                    assert(kp == k && chars_lt(np, nl));
                                    assert(!chars_lt(np, nj));
                                    if chars_lt(nl, nj) {
                                        lemma_chars_lt_transitive(np, nl, nj);
                                    }
                                }
                            }
                        }
                    } else {
                        assert forall|j: int|
                            0 <= j < n && #[trigger] entry_candidate(entries[j], req) == Some(kp) implies !chars_lt(
                            np,
                            entries[j].name@,
                        ) by {
                            if j == last {
                                assert(!(kp == k && chars_lt(np, nl)));
                            }
                        }
                    }
                },
            }
        }
    }
}

} // verus!
