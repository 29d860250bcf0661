//! Version numbers: whether the AdGuard Home instance is recent enough, and
//! whether a newer release of this program exists. Parsing and ordering are
//! those of the `semver` crate.
use vstd::prelude::*;
use vstd::string::*;
use crate::text::{chars_of, decimal, string_of_range};

verus! {

broadcast use vstd::string::group_string_axioms;

#[verifier::external_type_specification]
#[verifier::external_body]
pub struct ExSemverVersion(semver::Version);

/// `semver::Version::parse` succeeds on `text`.
pub uninterp spec fn semver_accepts(text: Seq<char>) -> bool;

/// The version that `text` parses to is ordered before the one `other` parses to,
/// by `semver`'s `Ord for Version`.
pub uninterp spec fn semver_precedes(text: Seq<char>, other: Seq<char>) -> bool;

/// A version that `semver` accepted, with the text it was read from.
/// Values are built only by the functions of this module, each of which stores
/// beside `version` a text that `semver` parses to exactly that `version`.
pub struct SemVer {
    text: String,
    version: semver::Version,
}

impl View for SemVer {
    type V = Seq<char>;

    closed spec fn view(&self) -> Seq<char> {
        self.text@
    }
}

/// `semver::Version::parse`: the version that `text` denotes, if `semver` accepts it.
#[verifier::external_body]
fn parse_semver(text: &str) -> (r: Option<SemVer>)
    ensures
        r is Some <==> semver_accepts(text@),
        r matches Some(v) ==> v@ == text@,
{
    match semver::Version::parse(text) {
        Ok(version) => Some(SemVer { text: text.to_string(), version }),
        Err(_) => None,
    }
}

/// `semver::Version::new(major, minor, patch)`, a release with neither pre-release nor
/// build part. Its text is what `Display` writes for it, `major.minor.patch`, which
/// `semver` parses back to the same version.
#[verifier::external_body]
fn release_version(major: u64, minor: u64, patch: u64) -> (v: SemVer)
    ensures
        v@ == decimal(major as nat) + seq!['.'] + decimal(minor as nat) + seq!['.'] + decimal(patch as nat),
        semver_accepts(v@),
{
    let version = semver::Version::new(major, minor, patch);
    SemVer { text: version.to_string(), version }
}

/// How two versions are ordered.
#[derive(Debug, Clone, Copy, PartialEq, Eq, Structural)]
pub enum VersionOrder {
    Older,
    Same,
    Newer,
}

/// `Ord::cmp` on two `semver` versions: `Older` when `a` comes before `b`.
/// Equal texts denote equal versions.
#[verifier::external_body]
fn order_versions(a: &SemVer, b: &SemVer) -> (o: VersionOrder)
    ensures
        (o is Older) == semver_precedes(a@, b@),
        (o is Newer) == semver_precedes(b@, a@),
        a@ == b@ ==> o is Same,
{
    match a.version.cmp(&b.version) {
        core::cmp::Ordering::Less => VersionOrder::Older,
        core::cmp::Ordering::Equal => VersionOrder::Same,
        core::cmp::Ordering::Greater => VersionOrder::Newer,
    }
}

// ------------------------------------------------------ the supported minimum

/// The oldest AdGuard Home release this program supports: `0.107.29`.
pub open spec fn minimum_version() -> Seq<char> {
    seq!['0', '.', '1', '0', '7', '.', '2', '9']
}

/// What the check of the instance's reported version finds.
#[derive(Debug, Clone, Copy, PartialEq, Eq, Structural)]
pub enum VersionCheck {
    /// The version is `0.107.29` or later.
    Supported,
    /// The version is older than `0.107.29`.
    TooOld,
    /// The reported version is not a version number.
    Unparseable,
    /// The instance reported no version.
    Missing,
}

/// The text with one leading `v` removed, as `strip_prefix('v')` does.
pub open spec fn without_v(s: Seq<char>) -> Seq<char> {
    if s.len() > 0 && s[0] == 'v' {
        s.drop_first()
    } else {
        s
    }
}

/// The verdict on a reported version, given whether it parsed and whether it is
/// older than the minimum.
pub open spec fn verdict(parsed: bool, older: bool) -> VersionCheck {
    if !parsed {
        VersionCheck::Unparseable
    } else if older {
        VersionCheck::TooOld
    } else {
        VersionCheck::Supported
    }
}

/// The verdict on what the instance reported as its version.
pub open spec fn version_check(version: Option<Seq<char>>) -> VersionCheck {
    match version {
        None => VersionCheck::Missing,
        Some(s) => {
            let t = without_v(s);
            verdict(semver_accepts(t), semver_precedes(t, minimum_version()))
        },
    }
}

/// The verdict once the reported version has been parsed and compared.
pub fn version_verdict(parsed: bool, older: bool) -> (r: VersionCheck)
    ensures
        r == verdict(parsed, older),
{
    if !parsed {
        VersionCheck::Unparseable
    } else if older {
        VersionCheck::TooOld
    } else {
        VersionCheck::Supported
    }
}

/// Removes one leading `v` from a version text.
pub fn strip_v(s: &str) -> (r: String)
    ensures
        r@ == without_v(s@),
{
    let c = chars_of(s);
    let from: usize = if c.len() > 0 && c[0] == 'v' { 1 } else { 0 };
    let r = string_of_range(&c, from, c.len());
    assert(s@.len() > 0 && s@[0] == 'v' ==> s@.drop_first() =~= s@.subrange(1, s@.len() as int));
    assert(s@.subrange(0, s@.len() as int) =~= s@);
    r
}

proof fn lemma_minimum_text()
    ensures
        decimal(0) + seq!['.'] + decimal(107) + seq!['.'] + decimal(29) == minimum_version(),
{
    reveal_with_fuel(decimal, 4);
    assert(decimal(107) =~= seq!['1', '0', '7']);
    assert(decimal(29) =~= seq!['2', '9']);
    assert(decimal(0) =~= seq!['0']);
    assert(decimal(0) + seq!['.'] + decimal(107) + seq!['.'] + decimal(29) =~= minimum_version());
}

/// Checks the version that the AdGuard Home instance reports (the `version` field of
/// its status), after removing a leading `v`, against the minimum `0.107.29`.
pub fn check_version(version: Option<&str>) -> (r: VersionCheck)
    ensures
        r == version_check(match version { Some(s) => Some(s@), None => None }),
{
    match version {
        None => VersionCheck::Missing,
        Some(s) => {
            let t = strip_v(s);
            match parse_semver(t.as_str()) {
                None => version_verdict(false, false),
                Some(v) => {
                    let minimum = release_version(0, 107, 29);
                    proof {
                        lemma_minimum_text();
                    }
                    let older = match order_versions(&v, &minimum) {
                        VersionOrder::Older => true,
                        _ => false,
                    };
                    version_verdict(true, older)
                },
            }
        },
    }
}

/// A leading `v` makes no difference: `vX` is judged as `X`, for any `X` that does
/// not itself start with `v`.
pub proof fn law_v_prefix_ignored(t: Seq<char>)
    requires
        !(t.len() > 0 && t[0] == 'v'),
    ensures
        version_check(Some(seq!['v'] + t)) == version_check(Some(t)),
{
    assert((seq!['v'] + t).drop_first() =~= t);
}

// ------------------------------------------------------------------- updates

/// What comparing this program's version with the latest published one finds.
#[derive(Debug, PartialEq, Eq)]
pub enum UpdateCheck {
    /// One of the two versions is unknown (missing, unparseable, or `0.0.0`).
    Unknown,
    /// A newer release is published.
    Available { current: String, latest: String },
    /// This is the latest release.
    UpToDate { current: String },
    /// This version is newer than the latest published one.
    PreRelease { current: String },
}

/// The text `0.0.0`, which stands for an unknown version.
pub open spec fn zero_version() -> Seq<char> {
    seq!['0', '.', '0', '.', '0']
}

/// A version text as read: itself if `semver` accepts it, else `0.0.0`.
pub open spec fn or_zero(t: Option<Seq<char>>) -> Seq<char> {
    match t {
        Some(s) => if semver_accepts(s) { s } else { zero_version() },
        None => zero_version(),
    }
}

/// The version is equal to `0.0.0`.
pub open spec fn is_zero(t: Seq<char>) -> bool {
    !semver_precedes(t, zero_version()) && !semver_precedes(zero_version(), t)
}

/// The cases of the update check.
#[derive(Debug, Clone, Copy, PartialEq, Eq, Structural)]
pub enum UpdateCase {
    Unknown,
    Available,
    UpToDate,
    PreRelease,
}

/// Which case the update check finds for the running version `current` and the
/// latest published version `latest` (`None` when it could not be fetched).
pub open spec fn update_case(current: Seq<char>, latest: Option<Seq<char>>) -> UpdateCase {
    let c = or_zero(Some(current));
    let l = or_zero(latest);
    if is_zero(c) || is_zero(l) {
        UpdateCase::Unknown
    } else if semver_precedes(c, l) {
        UpdateCase::Available
    } else if semver_precedes(l, c) {
        UpdateCase::PreRelease
    } else {
        UpdateCase::UpToDate
    }
}

impl UpdateCheck {
    /// The case an outcome belongs to.
    pub open spec fn case(self) -> UpdateCase {
        match self {
            UpdateCheck::Unknown => UpdateCase::Unknown,
            UpdateCheck::Available { .. } => UpdateCase::Available,
            UpdateCheck::UpToDate { .. } => UpdateCase::UpToDate,
            UpdateCheck::PreRelease { .. } => UpdateCase::PreRelease,
        }
    }
}

fn zero() -> (z: SemVer)
    ensures
        z@ == zero_version(),
        semver_accepts(z@),
{
    let z = release_version(0, 0, 0);
    proof {
        reveal_with_fuel(decimal, 2);
        assert(z@ =~= zero_version());
    }
    z
}

/// Reads a version text, falling back to `0.0.0` when it is missing or unparseable.
fn read_or_zero(text: Option<&str>) -> (r: SemVer)
    ensures
        r@ == or_zero(match text { Some(s) => Some(s@), None => None }),
        semver_accepts(r@),
{
    match text {
        Some(s) => match parse_semver(s) {
            Some(v) => v,
            None => zero(),
        },
        None => zero(),
    }
}

/// Compares the running version `current` with the latest published one, `latest`
/// (`None` when fetching it failed). Unparseable texts count as `0.0.0`, and a
/// `0.0.0` on either side makes the outcome `Unknown`.
pub fn update_status(current: &str, latest: Option<&str>) -> (r: UpdateCheck)
    ensures
        r.case() == update_case(current@, match latest { Some(s) => Some(s@), None => None }),
        r matches UpdateCheck::Available { current: c, latest: l } ==> c@ == current@
            && l@ == or_zero(match latest { Some(s) => Some(s@), None => None }),
        r matches UpdateCheck::UpToDate { current: c } ==> c@ == current@,
        r matches UpdateCheck::PreRelease { current: c } ==> c@ == current@,
        latest is None ==> r is Unknown,
        latest matches Some(s) && !semver_accepts(s@) ==> r is Unknown,
        !semver_accepts(current@) ==> r is Unknown,
        latest matches Some(s) && s@ == zero_version() ==> r is Unknown,
        current@ == zero_version() ==> r is Unknown,
{
    let c = read_or_zero(Some(current));
    let l = read_or_zero(latest);
    let zero = zero();
    let c_zero = match order_versions(&c, &zero) {
        VersionOrder::Same => true,
        _ => false,
    };
    let l_zero = match order_versions(&l, &zero) {
        VersionOrder::Same => true,
        _ => false,
    };
    let order = order_versions(&c, &l);
    update_outcome(c.text, l.text, c_zero, l_zero, order)
}

/// The case for two versions, given whether each is `0.0.0` and how they are ordered.
pub open spec fn case_of(current_zero: bool, latest_zero: bool, order: VersionOrder) -> UpdateCase {
    if current_zero || latest_zero {
        UpdateCase::Unknown
    } else {
        match order {
            VersionOrder::Older => UpdateCase::Available,
            VersionOrder::Newer => UpdateCase::PreRelease,
            VersionOrder::Same => UpdateCase::UpToDate,
        }
    }
}

/// The outcome of the update check once both versions have been read and compared:
/// `current_zero`/`latest_zero` tell whether each is `0.0.0`, `order` how the running
/// version stands to the latest one.
pub fn update_outcome(
    current: String,
    latest: String,
    current_zero: bool,
    latest_zero: bool,
    order: VersionOrder,
) -> (r: UpdateCheck)
    ensures
        r.case() == case_of(current_zero, latest_zero, order),
        r matches UpdateCheck::Available { current: c, latest: l } ==> c@ == current@ && l@ == latest@,
        r matches UpdateCheck::UpToDate { current: c } ==> c@ == current@,
        r matches UpdateCheck::PreRelease { current: c } ==> c@ == current@,
{
    if current_zero || latest_zero {
        return UpdateCheck::Unknown;
    }
    match order {
        VersionOrder::Older => UpdateCheck::Available { current, latest },
        VersionOrder::Newer => UpdateCheck::PreRelease { current },
        VersionOrder::Same => UpdateCheck::UpToDate { current },
    }
}

} // verus!
