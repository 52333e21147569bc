//! The three-component ordering key that the `semver` crate assigns to a
//! canonical version string. The key is opaque to the contracts: it is
//! named by `semver_key_of`, and the catalog reducer's ordering is stated
//! over that name.

use vstd::prelude::*;

verus! {

/// The key that `semver`'s parser assigns to `s`: `Some` of the numeric
/// `(major, minor, patch)` triple when `s` parses as a semantic version,
/// and `None` otherwise. The result depends on the characters of `s` alone.
pub uninterp spec fn semver_key_of(s: Seq<char>) -> Option<(u64, u64, u64)>;

/// Relies on `semver::Version::parse`: parsing is a pure function of the
/// input text, and on success the version's numeric components are its
/// `major`, `minor` and `patch` fields.
#[verifier::external_body]
pub(crate) fn parse_semver_key(s: &str) -> (r: Option<(u64, u64, u64)>)
    ensures
        r == semver_key_of(s@),
{
    match semver::Version::parse(s) {
        Ok(v) => Some((v.major, v.minor, v.patch)),
        Err(_) => None,
    }
}

/// Strict ordering on parse keys: an unparseable version ranks below every
/// parseable one, and parseable versions order lexicographically by major,
/// then minor, then patch.
pub open spec fn key_lt(a: Option<(u64, u64, u64)>, b: Option<(u64, u64, u64)>) -> bool {
    match (a, b) {
        (Option::None, Option::None) => false,
        (Option::None, Option::Some(_)) => true,
        (Option::Some(_), Option::None) => false,
        (Option::Some(x), Option::Some(y)) => x.0 < y.0 || (x.0 == y.0 && (x.1 < y.1 || (x.1
            == y.1 && x.2 < y.2))),
    }
}

/// Non-strict ordering on parse keys.
pub open spec fn key_le(a: Option<(u64, u64, u64)>, b: Option<(u64, u64, u64)>) -> bool {
    key_lt(a, b) || a == b
}

/// The key ordering is total: two keys compare one way, the other way, or
/// are equal.
pub proof fn lemma_key_total(a: Option<(u64, u64, u64)>, b: Option<(u64, u64, u64)>)
    ensures
        key_lt(a, b) || key_lt(b, a) || a == b,
{
}

/// The key ordering is transitive, also across its non-strict form.
pub proof fn lemma_key_trans(
    a: Option<(u64, u64, u64)>,
    b: Option<(u64, u64, u64)>,
    c: Option<(u64, u64, u64)>,
)
    ensures
        key_le(a, b) && key_lt(b, c) ==> key_lt(a, c),
        key_lt(a, b) && key_le(b, c) ==> key_lt(a, c),
        key_le(a, b) && key_le(b, c) ==> key_le(a, c),
{
}

/// Compares two parse keys under the strict key ordering.
pub fn key_lt_exec(a: &Option<(u64, u64, u64)>, b: &Option<(u64, u64, u64)>) -> (r: bool)
    ensures
        r == key_lt(*a, *b),
{
    match (a, b) {
        (Option::None, Option::None) => false,
        (Option::None, Option::Some(_)) => true,
        (Option::Some(_), Option::None) => false,
        (Option::Some(x), Option::Some(y)) => x.0 < y.0 || (x.0 == y.0 && (x.1 < y.1 || (x.1
            == y.1 && x.2 < y.2))),
    }
}

} // verus!
