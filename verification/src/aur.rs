//! The local package identities: records of an AUR-style info lookup, each
//! carrying the locally installed version of one tracked package.

use vstd::prelude::*;

use crate::strutil::{lemma_seq_first_idx, seq_first_idx, str_eq};
use crate::version::{strip_release_spec, strip_release_suffix};

verus! {

/// One locally known package: its name and its raw installed version,
/// including the packaging release suffix (for example `1.2.3-1`).
#[derive(Clone, Debug, PartialEq)]
pub struct AurPackage {
    pub name: String,
    pub version: String,
}

/// The envelope of an info lookup: the protocol version, the number of
/// results, and the package records themselves.
#[derive(Clone, Debug, PartialEq)]
pub struct AurResponse {
    pub version: u32,
    pub result_count: u32,
    pub results: Vec<AurPackage>,
}

impl AurPackage {
    /// The installed version with its packaging release suffix removed:
    /// everything before the first `-`.
    pub fn get_package_version(&self) -> (r: String)
        ensures
            r@ == strip_release_spec(self.version@),
    {
        strip_release_suffix(self.version.clone())
    }
}

/// The names of a local package list, in order.
pub open spec fn aur_names(ps: Seq<AurPackage>) -> Seq<Seq<char>> {
    ps.map_values(|p: AurPackage| p.name@)
}

/// The position of the first local package named `name`, if any.
pub fn find_aur_package(packages: &Vec<AurPackage>, name: &str) -> (r: Option<usize>)
    ensures
        match r {
            Some(i) => seq_first_idx(aur_names(packages@), name@) == Some(i as int),
            None => seq_first_idx(aur_names(packages@), name@) is None,
        },
{
    let n = packages.len();
    let ghost names = aur_names(packages@);
    let mut i: usize = 0;
    while i < n
        invariant
            n == packages@.len(),
            names == aur_names(packages@),
            i <= n,
            forall|j: int| 0 <= j < i ==> names[j] != name@,
        decreases n - i,
    {
        if str_eq(packages[i].name.as_str(), name) {
            proof {
                assert(names[i as int] == packages@[i as int].name@);
                lemma_seq_first_idx(names, name@);
            }
            return Some(i);
        }
        i += 1;
    }
    proof {
        lemma_seq_first_idx(names, name@);
    }
    None
}

} // verus!
