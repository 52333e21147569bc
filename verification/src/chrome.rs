//! The Chrome repository catalog: the raw data model of its `other`
//! metadata, and reconciliation of a flat mapping against its reduced
//! records. This family compares without a show-all override.

use vstd::prelude::*;

use crate::aur::{aur_names, find_aur_package, AurPackage};
use crate::mapping::PackageMapping;
use crate::report::{
    decision_spec, outcome_view, update_decision, FailureV, PackageFailure, ReconcileError,
    ReportV, UpdateResult,
};
use crate::strutil::{lemma_seq_first_idx, seq_first_idx, str_eq};
use crate::version::strip_release_spec;

verus! {

/// One version entry of a raw record.
#[derive(Clone, Debug, PartialEq)]
pub struct Version {
    pub version: String,
}

/// One raw catalog record: a package name and its version entries.
#[derive(Clone, Debug, PartialEq)]
pub struct Package {
    pub name: String,
    pub versions: Vec<Version>,
}

/// A raw catalog of the Chrome repository.
#[derive(Clone, Debug, PartialEq)]
pub struct ChromeRepository {
    pub packages: Vec<Package>,
}

/// One reduced record: the representative version chosen for one name.
#[derive(Clone, Debug, PartialEq)]
pub struct ChromeUpdate {
    pub name: String,
    pub version: String,
}

/// The names of a reduced record list, in order.
pub open spec fn chrome_update_names(us: Seq<ChromeUpdate>) -> Seq<Seq<char>> {
    us.map_values(|u: ChromeUpdate| u.name@)
}

/// The position of the first reduced record named `name`, if any.
pub fn find_chrome_update(updates: &Vec<ChromeUpdate>, name: &str) -> (r: Option<usize>)
    ensures
        match r {
            Some(i) => seq_first_idx(chrome_update_names(updates@), name@) == Some(i as int),
            None => seq_first_idx(chrome_update_names(updates@), name@) is None,
        },
{
    let n = updates.len();
    let ghost names = chrome_update_names(updates@);
    let mut i: usize = 0;
    while i < n
        invariant
            n == updates@.len(),
            names == chrome_update_names(updates@),
            i <= n,
            forall|j: int| 0 <= j < i ==> names[j] != name@,
        decreases n - i,
    {
        if str_eq(updates[i].name.as_str(), name) {
            proof {
                assert(names[i as int] == updates@[i as int].name@);
                lemma_seq_first_idx(names, name@);
            }
            return Some(i);
        }
        i += 1;
    }
    proof {
        lemma_seq_first_idx(names, name@);
    }
    None
}

/// The outcome owed for one row of the mapping: as in the yum family, but a
/// line is owed exactly when the canonical versions differ.
pub open spec fn chrome_row_spec(
    m: PackageMapping,
    packages: Seq<AurPackage>,
    updates: Seq<ChromeUpdate>,
) -> Result<ReportV, FailureV> {
    match seq_first_idx(aur_names(packages), m.local_name@) {
        None => Err(FailureV { name: m.local_name@, error: ReconcileError::UnknownPackage }),
        Some(pi) => match seq_first_idx(chrome_update_names(updates), m.upstream_name@) {
            None => Err(
                FailureV { name: m.local_name@, error: ReconcileError::UnknownUpstreamProduct },
            ),
            Some(ui) => Ok(
                decision_spec(
                    packages[pi].name@,
                    strip_release_spec(packages[pi].version@),
                    updates[ui].version@,
                    false,
                ),
            ),
        },
    }
}

/// The decision for one matched pair: the local version without its release
/// suffix against the reduced record's version.
pub fn print_chrome_update(package: &AurPackage, update: &ChromeUpdate) -> (r: UpdateResult)
    ensures
        r@ == decision_spec(
            package.name@,
            strip_release_spec(package.version@),
            update.version@,
            false,
        ),
{
    update_decision(
        package.name.as_str(),
        package.get_package_version(),
        update.version.as_str(),
        false,
    )
}

/// Reconciles every row of the mapping, collecting one outcome per row: a
/// failed lookup yields that row's error and leaves the other rows
/// untouched.
pub fn print_chrome_updates(
    products: Vec<PackageMapping>,
    packages: Vec<AurPackage>,
    updates: Vec<ChromeUpdate>,
) -> (r: Vec<Result<UpdateResult, PackageFailure>>)
    ensures
        r@.len() == products@.len(),
        forall|k: int|
            0 <= k < r@.len() ==> outcome_view(#[trigger] r@[k]) == chrome_row_spec(
                products@[k],
                packages@,
                updates@,
            ),
{
    let mut r: Vec<Result<UpdateResult, PackageFailure>> = Vec::new();
    let mut k: usize = 0;
    while k < products.len()
        invariant
            k <= products@.len(),
            r@.len() == k,
            forall|t: int|
                0 <= t < k ==> outcome_view(#[trigger] r@[t]) == chrome_row_spec(
                    products@[t],
                    packages@,
                    updates@,
                ),
        decreases products@.len() - k,
    {
        let m = &products[k];
        let row = match find_aur_package(&packages, m.local_name.as_str()) {
            None => Err(
                PackageFailure {
                    name: m.local_name.clone(),
                    error: ReconcileError::UnknownPackage,
                },
            ),
            Some(pi) => {
                proof {
                    lemma_seq_first_idx(aur_names(packages@), m.local_name@);
                }
                match find_chrome_update(&updates, m.upstream_name.as_str()) {
                    None => Err(
                        PackageFailure {
                            name: m.local_name.clone(),
                            error: ReconcileError::UnknownUpstreamProduct,
                        },
                    ),
                    Some(ui) => {
                        proof {
                            lemma_seq_first_idx(chrome_update_names(updates@), m.upstream_name@);
                        }
                        Ok(print_chrome_update(&packages[pi], &updates[ui]))
                    },
                }
            },
        };
        r.push(row);
        k += 1;
    }
    r
}

} // verus!
