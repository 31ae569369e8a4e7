//! Release versions: parsing version strings and deciding whether a newer
//! release is available.

use vstd::prelude::*;
use vstd::string::StrSliceExecFns;
use vstd::string::StringExecFns;

verus! {

/// A parsed version: the release triple and whether a pre-release label
/// was attached.
#[derive(PartialEq, Eq, Structural, Clone, Copy, Debug)]
pub struct Version {
    pub major: u64,
    pub minor: u64,
    pub patch: u64,
    pub prerelease: bool,
}

/// What parsing a version string yields: the triple and pre-release flag,
/// or nothing for a string that is no version. The result depends on the
/// characters alone.
pub uninterp spec fn parsed_version(s: Seq<char>) -> Option<(u64, u64, u64, bool)>;

/// Relies on `semver::Version::parse`: the numeric triple and whether the
/// pre-release part is non-empty, for any string it accepts; `None` for
/// one it rejects.
#[verifier::external_body]
fn parse_semver(s: &str) -> (r: Option<(u64, u64, u64, bool)>)
    ensures
        r == parsed_version(s@),
{
    match semver::Version::parse(s) {
        Ok(v) => Some((v.major, v.minor, v.patch, !v.pre.is_empty())),
        Err(_) => None,
    }
}

/// Parse a version string.
pub fn parse_version(s: &str) -> (r: Option<Version>)
    ensures
        match r {
            Some(v) => parsed_version(s@) == Some(
                (v.major, v.minor, v.patch, v.prerelease),
            ),
            None => parsed_version(s@) is None,
        },
{
    match parse_semver(s) {
        Some(t) => Some(Version { major: t.0, minor: t.1, patch: t.2, prerelease: t.3 }),
        None => None,
    }
}

/// `a` comes before `b`: the triples compare lexicographically, and on an
/// equal triple a pre-release comes before the release. Two pre-releases
/// of the same triple are not ordered further here.
pub open spec fn spec_precedes(a: Version, b: Version) -> bool {
    ||| a.major < b.major
    ||| (a.major == b.major && a.minor < b.minor)
    ||| (a.major == b.major && a.minor == b.minor && a.patch < b.patch)
    ||| (a.major == b.major && a.minor == b.minor && a.patch == b.patch && a.prerelease
        && !b.prerelease)
}

/// Whether `a` comes before `b`.
pub fn precedes(a: &Version, b: &Version) -> (r: bool)
    ensures
        r == spec_precedes(*a, *b),
{
    if a.major != b.major {
        a.major < b.major
    } else if a.minor != b.minor {
        a.minor < b.minor
    } else if a.patch != b.patch {
        a.patch < b.patch
    } else {
        a.prerelease && !b.prerelease
    }
}

/// `s` with every occurrence of `c` removed.
pub open spec fn spec_without_char(s: Seq<char>, c: char) -> Seq<char>
    decreases s.len(),
{
    if s.len() == 0 {
        s
    } else {
        let rest = spec_without_char(s.drop_last(), c);
        if s.last() == c {
            rest
        } else {
            rest.push(s.last())
        }
    }
}

/// Remove every occurrence of a character from a string.
pub fn without_char(s: &str, c: char) -> (r: String)
    ensures
        r@ == spec_without_char(s@, c),
{
    let n = s.unicode_len();
    let mut out = String::new();
    let mut i: usize = 0;
    while i < n
        invariant
            i <= n,
            n == s@.len(),
            out@ == spec_without_char(s@.take(i as int), c),
        decreases n - i,
    {
        proof {
            assert(s@.take(i + 1).drop_last() =~= s@.take(i as int));
            assert(s@.take(i + 1).last() == s@[i as int]);
        }
        if s.get_char(i) != c {
            out.append(s.substring_char(i, i + 1));
        }
        i += 1;
    }
    proof {
        assert(s@.take(n as int) =~= s@);
    }
    out
}

/// The version a release name denotes: the name with every `v` removed,
/// parsed as a version.
pub fn version_from_release_name(name: &str) -> (r: Option<Version>)
    ensures
        match r {
            Some(v) => parsed_version(spec_without_char(name@, 'v')) == Some(
                (v.major, v.minor, v.patch, v.prerelease),
            ),
            None => parsed_version(spec_without_char(name@, 'v')) is None,
        },
{
    let cleaned = without_char(name, 'v');
    parse_version(cleaned.as_str())
}

/// Whether a newer launcher is available: both the running version and the
/// latest release name parse, and the running version comes first. A
/// version that fails to parse reports no update, as an update check that
/// cannot be answered must not trigger one.
pub fn self_update_available(current: &str, latest_release_name: &str) -> (r: bool)
    ensures
        r == match (parsed_version(current@), parsed_version(
            spec_without_char(latest_release_name@, 'v'),
        )) {
            (Some(c), Some(l)) => spec_precedes(
                Version { major: c.0, minor: c.1, patch: c.2, prerelease: c.3 },
                Version { major: l.0, minor: l.1, patch: l.2, prerelease: l.3 },
            ),
            _ => false,
        },
{
    let cur = parse_version(current);
    let latest = version_from_release_name(latest_release_name);
    match (cur, latest) {
        (Some(c), Some(l)) => precedes(&c, &l),
        _ => false,
    }
}

} // verus!
