//! The yum repository catalog: its data model, the lookup of the `other`
//! metadata file, and the catalog reducer that collapses a raw record list
//! (possibly many records per package name) to one record per name.

use vstd::prelude::*;

use crate::aur::{aur_names, find_aur_package, AurPackage};
use crate::mapping::PackageMapping;
use crate::report::{
    decision_spec, outcome_view, update_decision, FailureV, PackageFailure, ReconcileError,
    ReportV, UpdateResult,
};
use crate::semver_keys::{key_le, key_lt, key_lt_exec, lemma_key_total, lemma_key_trans,
    parse_semver_key, semver_key_of};
use crate::strutil::{find_char, lemma_seq_first_idx, seq_first_idx, str_eq};
use crate::version::{compact_semver, compact_spec, strip_release_spec};

verus! {

/// The location of one metadata file inside a repository.
#[derive(Clone, Debug, PartialEq)]
pub struct RepositoryLocation {
    pub href: String,
}

/// One `data` entry of a repository's metadata index: its type tag and the
/// file it points to.
#[derive(Clone, Debug, PartialEq)]
pub struct RepositoryData {
    pub data_type: String,
    pub location: RepositoryLocation,
}

/// The metadata index of a repository: one entry per metadata file.
#[derive(Clone, Debug, PartialEq)]
pub struct RepositoryMetadata {
    pub repositories: Vec<RepositoryData>,
}

/// One version entry of a catalog record.
#[derive(Clone, Debug, PartialEq)]
pub struct YumVersion {
    pub version: String,
}

/// One raw catalog record: a package name and its version entries, newest
/// first.
#[derive(Clone, Debug, PartialEq)]
pub struct YumPackage {
    pub name: String,
    pub versions: Vec<YumVersion>,
}

/// A raw catalog: every record of one repository, possibly several per
/// package name.
#[derive(Clone, Debug, PartialEq)]
pub struct YumRepository {
    pub packages: Vec<YumPackage>,
}

/// One reduced record: the representative version chosen for one name.
#[derive(Clone, Debug, PartialEq)]
pub struct YumUpdate {
    pub name: String,
    pub version: String,
}

impl YumPackage {
    /// The record's current version: its first version entry.
    pub fn version(&self) -> (r: String)
        requires
            self.versions@.len() > 0,
        ensures
            r@ == self.versions@[0].version@,
    {
        self.versions[0].version.clone()
    }

    /// Whether the record's current version carries a pre-release marker
    /// (`~`).
    pub fn is_pre_release(&self) -> (r: bool)
        requires
            self.versions@.len() > 0,
        ensures
            r == self.versions@[0].version@.contains('~'),
    {
        let v = &self.versions[0].version;
        match find_char(v.as_str(), '~') {
            Some(i) => {
                proof {
                    lemma_seq_first_idx(v@, '~');
                    assert(v@[i as int] == '~');
                }
                true
            },
            None => {
                proof {
                    lemma_seq_first_idx(v@, '~');
                }
                false
            },
        }
    }

    /// The record's current version compacted to at most three segments.
    pub fn semver(&self) -> (r: String)
        requires
            self.versions@.len() > 0,
        ensures
            r@ == compact_spec(self.versions@[0].version@),
    {
        compact_semver(self.version())
    }
}

/// The type tags of a metadata index, in order.
pub open spec fn data_type_names(rs: Seq<RepositoryData>) -> Seq<Seq<char>> {
    rs.map_values(|d: RepositoryData| d.data_type@)
}

/// The names of a reduced record list, in order.
pub open spec fn update_names(us: Seq<YumUpdate>) -> Seq<Seq<char>> {
    us.map_values(|u: YumUpdate| u.name@)
}

/// The names of a raw catalog, in order.
pub open spec fn catalog_names(ps: Seq<YumPackage>) -> Seq<Seq<char>> {
    ps.map_values(|p: YumPackage| p.name@)
}

/// A raw catalog is well formed when every record has at least one version
/// entry.
pub open spec fn wf_catalog(ps: Seq<YumPackage>) -> bool {
    forall|i: int| 0 <= i < ps.len() ==> ps[i].versions@.len() > 0
}

/// The file location of the `other` metadata entry: the entry whose type
/// tag is exactly `other`, taken first when several occur; `None` when the
/// index has no such entry.
pub fn other_repository_href(metadata: &RepositoryMetadata) -> (r: Option<String>)
    ensures
        match seq_first_idx(data_type_names(metadata.repositories@), "other"@) {
            Some(i) => r is Some && r->0@ == metadata.repositories@[i].location.href@,
            None => r is None,
        },
{
    let n = metadata.repositories.len();
    let ghost names = data_type_names(metadata.repositories@);
    let mut i: usize = 0;
    while i < n
        invariant
            n == metadata.repositories@.len(),
            names == data_type_names(metadata.repositories@),
            i <= n,
            forall|j: int| 0 <= j < i ==> names[j] != "other"@,
        decreases n - i,
    {
        if str_eq(metadata.repositories[i].data_type.as_str(), "other") {
            proof {
                assert(names[i as int] == metadata.repositories@[i as int].data_type@);
                lemma_seq_first_idx(names, "other"@);
            }
            return Some(metadata.repositories[i].location.href.clone());
        }
        i += 1;
    }
    proof {
        lemma_seq_first_idx(names, "other"@);
    }
    None
}

/// The ordering key of a raw record: the `semver` parse key of its
/// compacted current version.
#[verifier::opaque]
pub open spec fn pkg_key(p: YumPackage) -> Option<(u64, u64, u64)> {
    semver_key_of(compact_spec(p.versions@[0].version@))
}

/// The ordering key of a raw record, as the `semver` crate computes it.
pub fn version_key(p: &YumPackage) -> (k: Option<(u64, u64, u64)>)
    requires
        p.versions@.len() > 0,
    ensures
        k == pkg_key(*p),
{
    proof {
        reveal(pkg_key);
    }
    let compacted = p.semver();
    parse_semver_key(compacted.as_str())
}

/// Within the first `n` records, `w` is the chosen representative of its
/// name: no record of that name has a greater key, and `w` is the first to
/// reach its key.
pub open spec fn is_best_upto(ps: Seq<YumPackage>, n: int, w: int) -> bool {
    &&& 0 <= w < n
    &&& forall|k: int|
        0 <= k < n && ps[k].name@ == ps[w].name@ ==> key_le(pkg_key(ps[k]), pkg_key(ps[w])) && (k
            < w ==> key_lt(pkg_key(ps[k]), pkg_key(ps[w])))
}

/// `w` is the chosen representative of its name over the whole catalog.
pub open spec fn is_best(ps: Seq<YumPackage>, w: int) -> bool {
    is_best_upto(ps, ps.len() as int, w)
}

/// `i` is the last record bearing its name.
pub open spec fn is_last_occ(ps: Seq<YumPackage>, i: int) -> bool {
    0 <= i < ps.len() && forall|k: int| i < k < ps.len() ==> ps[k].name@ != ps[i].name@
}

/// The distinct names among the first `n` entries of `names`, each at its
/// first occurrence, in order.
pub open spec fn dedup_prefix(names: Seq<Seq<char>>, n: int) -> Seq<Seq<char>>
    decreases n,
{
    if n <= 0 {
        Seq::empty()
    } else {
        let d = dedup_prefix(names, n - 1);
        if d.contains(names[n - 1]) {
            d
        } else {
            d.push(names[n - 1])
        }
    }
}

/// The distinct names of `names` from position `i` on, scanned from the
/// end: each name at its last occurrence, in order of descending position.
pub open spec fn dedup_suffix_rev(names: Seq<Seq<char>>, i: int) -> Seq<Seq<char>>
    decreases names.len() - i,
{
    if i < 0 || i >= names.len() {
        Seq::empty()
    } else {
        let d = dedup_suffix_rev(names, i + 1);
        if d.contains(names[i]) {
            d
        } else {
            d.push(names[i])
        }
    }
}

/// `r` is the highest-version reduction of `ps`: one record per distinct
/// name, in order of first occurrence, each carrying the current version of
/// the first record whose key is greatest among its name.
pub open spec fn reduced_by_highest(ps: Seq<YumPackage>, r: Seq<YumUpdate>) -> bool {
    &&& forall|j1: int, j2: int| 0 <= j1 < j2 < r.len() ==> r[j1].name@ != r[j2].name@
    &&& forall|i: int|
        0 <= i < ps.len() ==> exists|j: int| 0 <= j < r.len() && #[trigger] r[j].name@
            == #[trigger] ps[i].name@
    &&& forall|j: int|
        0 <= j < r.len() ==> exists|w: int|
            is_best(ps, w) && ps[w].name@ == #[trigger] r[j].name@ && r[j].version@
                == ps[w].versions@[0].version@
    &&& update_names(r) == dedup_prefix(catalog_names(ps), ps.len() as int)
}

/// `r` is the last-occurrence reduction of `ps`: one record per distinct
/// name, each carrying the current version of the last record of its name,
/// in order of descending position of those last occurrences.
pub open spec fn reduced_by_last(ps: Seq<YumPackage>, r: Seq<YumUpdate>) -> bool {
    &&& forall|j1: int, j2: int| 0 <= j1 < j2 < r.len() ==> r[j1].name@ != r[j2].name@
    &&& forall|i: int|
        0 <= i < ps.len() ==> exists|j: int| 0 <= j < r.len() && #[trigger] r[j].name@
            == #[trigger] ps[i].name@
    &&& forall|j: int|
        0 <= j < r.len() ==> exists|w: int|
            is_last_occ(ps, w) && ps[w].name@ == #[trigger] r[j].name@ && r[j].version@
                == ps[w].versions@[0].version@
    &&& update_names(r) == dedup_suffix_rev(catalog_names(ps), 0)
}

/// The two reduction strategies: the ordering-based default, and the
/// order-dependent fallback for feeds whose sort order is guaranteed.
#[derive(Clone, Copy, Debug, PartialEq, Eq, Structural)]
pub enum ReducePolicy {
    /// Keep, per name, the record whose compacted version is greatest under
    /// three-component numeric ordering; first seen wins a tie.
    HighestVersion,
    /// Keep, per name, the last record in upstream order.
    LastOccurrence,
}

/// Collapses a raw catalog to one record per distinct package name, keeping
/// per name the record whose compacted current version is greatest under
/// the key ordering; among records of equal key the first wins.
#[verifier::rlimit(50)]
pub fn reduce_catalog_highest(repository: &YumRepository) -> (r: Vec<YumUpdate>)
    requires
        wf_catalog(repository.packages@),
    ensures
        reduced_by_highest(repository.packages@, r@),
{
    let ps = &repository.packages;
    let n = ps.len();
    let ghost pss = repository.packages@;
    let ghost names = catalog_names(pss);
    let mut out: Vec<YumUpdate> = Vec::new();
    let mut keys: Vec<Option<(u64, u64, u64)>> = Vec::new();
    let ghost mut wits: Seq<int> = Seq::empty();
    let mut i: usize = 0;
    while i < n
        invariant
            wf_catalog(pss),
            pss == repository.packages@,
            ps@ == pss,
            names == catalog_names(pss),
            n == pss.len(),
            i <= n,
            out@.len() == keys@.len(),
            wits.len() == out@.len(),
            forall|j: int|
                0 <= j < out@.len() ==> {
                    &&& is_best_upto(pss, i as int, #[trigger] wits[j])
                    &&& pss[wits[j]].name@ == out@[j].name@
                    &&& out@[j].version@ == pss[wits[j]].versions@[0].version@
                    &&& keys@[j] == pkg_key(pss[wits[j]])
                },
            forall|j1: int, j2: int| 0 <= j1 < j2 < out@.len() ==> out@[j1].name@ != out@[j2].name@,
            forall|k: int|
                0 <= k < i ==> exists|j: int| 0 <= j < out@.len() && #[trigger] out@[j].name@
                    == #[trigger] pss[k].name@,
            update_names(out@) == dedup_prefix(names, i as int),
        decreases n - i,
    {
        proof {
            assert(pss[i as int].versions@.len() > 0);
        }
        let key_i = version_key(&ps[i]);
        let ghost out0 = out@;
        let ghost keys0 = keys@;
        let ghost wits0 = wits;
        let ghost ii = i as int;
        match find_update(&out, ps[i].name.as_str()) {
            None => {
                proof {
                    lemma_seq_first_idx(update_names(out0), pss[ii].name@);
                    assert forall|j: int| 0 <= j < out0.len() implies out0[j].name@
                        != pss[ii].name@ by {
                        assert(update_names(out0)[j] == out0[j].name@);
                    }
                    // no earlier record bears this name, else it would be
                    // represented already
                    assert forall|k: int| 0 <= k < ii implies pss[k].name@ != pss[ii].name@ by {
                        let j = choose|j: int|
                            0 <= j < out0.len() && #[trigger] out0[j].name@ == pss[k].name@;
                    }
                    assert(is_best_upto(pss, ii + 1, ii));
                }
                let upd = YumUpdate {
                    name: ps[i].name.clone(),
                    version: ps[i].versions[0].version.clone(),
                };
                out.push(upd);
                keys.push(key_i);
                proof {
                    wits = wits0.push(ii);
                }
                proof {
                    assert forall|j: int| 0 <= j < out@.len() implies {
                        &&& is_best_upto(pss, ii + 1, #[trigger] wits[j])
                        &&& pss[wits[j]].name@ == out@[j].name@
                        &&& out@[j].version@ == pss[wits[j]].versions@[0].version@
                        &&& keys@[j] == pkg_key(pss[wits[j]])
                    } by {
                        if j < out0.len() {
                            assert(is_best_upto(pss, ii, wits0[j]));
                            assert(pss[wits0[j]].name@ == out0[j].name@);
                            assert(is_best_upto(pss, ii + 1, wits0[j]));
                        } else {
                            assert(wits[j] == ii);
                        }
                    }
                    assert forall|j1: int, j2: int| 0 <= j1 < j2 < out@.len() implies out@[j1].name@
                        != out@[j2].name@ by {
                        if j2 == out0.len() {
                            assert(out@[j1].name@ == out0[j1].name@);
                        }
                    }
                    assert forall|k: int| 0 <= k < ii + 1 implies exists|j: int|
                        0 <= j < out@.len() && #[trigger] out@[j].name@
                            == #[trigger] pss[k].name@ by {
                        if k < ii {
                            let j = choose|j: int|
                                0 <= j < out0.len() && #[trigger] out0[j].name@ == pss[k].name@;
                            assert(out@[j].name@ == pss[k].name@);
                        } else {
                            assert(out@[out0.len() as int].name@ == pss[ii].name@);
                        }
                    }
                    assert(update_names(out@) =~= update_names(out0).push(pss[ii].name@));
                    assert(!update_names(out0).contains(pss[ii].name@));
                    assert(names[ii] == pss[ii].name@);
                    assert(update_names(out@) == dedup_prefix(names, ii + 1));
                }
            },
            Some(p) => {
                proof {
                    lemma_seq_first_idx(update_names(out0), pss[ii].name@);
                    assert(update_names(out0)[p as int] == out0[p as int].name@);
                    assert(out0[p as int].name@ == pss[ii].name@);
                }
                let ghost pi = p as int;
                if key_lt_exec(&keys[p], &key_i) {
                    let upd = YumUpdate {
                        name: ps[i].name.clone(),
                        version: ps[i].versions[0].version.clone(),
                    };
                    out[p] = upd;
                    keys[p] = key_i;
                    proof {
                        wits = wits0.update(pi, ii);
                    }
                    proof {
                        let wp = wits0[pi];
                        assert(is_best_upto(pss, ii, wp));
                        assert(pss[wp].name@ == pss[ii].name@);
                        assert(key_lt(pkg_key(pss[wp]), pkg_key(pss[ii])));
                        // record i beats the old representative, hence every
                        // earlier record of its name
                        assert forall|k: int|
                            0 <= k < ii + 1 && pss[k].name@ == pss[ii].name@ implies key_le(
                            pkg_key(pss[k]),
                            pkg_key(pss[ii]),
                        ) && (k < ii ==> key_lt(pkg_key(pss[k]), pkg_key(pss[ii]))) by {
                            if k < ii {
                                assert(key_le(pkg_key(pss[k]), pkg_key(pss[wp])));
                                lemma_key_trans(pkg_key(pss[k]), pkg_key(pss[wp]), pkg_key(pss[ii]));
                            }
                        }
                        assert(is_best_upto(pss, ii + 1, ii));
                        assert forall|j: int| 0 <= j < out@.len() implies {
                            &&& is_best_upto(pss, ii + 1, #[trigger] wits[j])
                            &&& pss[wits[j]].name@ == out@[j].name@
                            &&& out@[j].version@ == pss[wits[j]].versions@[0].version@
                            &&& keys@[j] == pkg_key(pss[wits[j]])
                        } by {
                            if j != pi {
                                assert(is_best_upto(pss, ii, wits0[j]));
                                assert(pss[wits0[j]].name@ == out0[j].name@);
                                assert(out0[j].name@ != out0[pi].name@);
                                assert(is_best_upto(pss, ii + 1, wits0[j]));
                                assert(out@[j] == out0[j]);
                            } else {
                                assert(wits[j] == ii);
                            }
                        }
                        assert forall|j1: int, j2: int|
                            0 <= j1 < j2 < out@.len() implies out@[j1].name@ != out@[j2].name@ by {
                            assert(out@[j1].name@ == out0[j1].name@);
                            assert(out@[j2].name@ == out0[j2].name@);
                        }
                        assert forall|k: int| 0 <= k < ii + 1 implies exists|j: int|
                            0 <= j < out@.len() && #[trigger] out@[j].name@
                                == #[trigger] pss[k].name@ by {
                            if k < ii {
                                let j = choose|j: int|
                                    0 <= j < out0.len() && #[trigger] out0[j].name@
                                        == pss[k].name@;
                                assert(out@[j].name@ == out0[j].name@);
                            } else {
                                assert(out@[pi].name@ == pss[ii].name@);
                            }
                        }
                        assert(update_names(out@) =~= update_names(out0));
                        assert(update_names(out0).contains(names[ii]));
                        assert(update_names(out@) == dedup_prefix(names, ii + 1));
                    }
                } else {
                    proof {
                        let wp = wits0[pi];
                        lemma_key_total(pkg_key(pss[ii]), keys0[pi]);
                        assert(key_le(pkg_key(pss[ii]), pkg_key(pss[wp])));
                        assert forall|j: int| 0 <= j < out@.len() implies {
                            &&& is_best_upto(pss, ii + 1, #[trigger] wits[j])
                            &&& pss[wits[j]].name@ == out@[j].name@
                            &&& out@[j].version@ == pss[wits[j]].versions@[0].version@
                            &&& keys@[j] == pkg_key(pss[wits[j]])
                        } by {
                            assert(is_best_upto(pss, ii, wits0[j]));
                            assert(pss[wits0[j]].name@ == out0[j].name@);
                            if j == pi {
                                assert(is_best_upto(pss, ii + 1, wp));
                            } else {
                                assert(out0[j].name@ != out0[pi].name@);
                                assert(is_best_upto(pss, ii + 1, wits0[j]));
                            }
                        }
                        assert forall|k: int| 0 <= k < ii + 1 implies exists|j: int|
                            0 <= j < out@.len() && #[trigger] out@[j].name@
                                == #[trigger] pss[k].name@ by {
                            if k == ii {
                                assert(out@[pi].name@ == pss[ii].name@);
                            }
                        }
                        assert(update_names(out0).contains(names[ii]));
                        assert(update_names(out@) == dedup_prefix(names, ii + 1));
                    }
                }
            },
        }
        i += 1;
    }
    proof {
        assert forall|j: int| 0 <= j < out@.len() implies exists|w: int|
            is_best(pss, w) && pss[w].name@ == #[trigger] out@[j].name@ && out@[j].version@
                == pss[w].versions@[0].version@ by {
            assert(is_best_upto(pss, n as int, wits[j]));
            assert(is_best(pss, wits[j]));
        }
    }
    out
}

/// Collapses a raw catalog to one record per distinct package name, keeping
/// per name the last record in upstream order.
#[verifier::rlimit(50)]
pub fn reduce_catalog_last(repository: &YumRepository) -> (r: Vec<YumUpdate>)
    requires
        wf_catalog(repository.packages@),
    ensures
        reduced_by_last(repository.packages@, r@),
{
    let ps = &repository.packages;
    let n = ps.len();
    let ghost pss = repository.packages@;
    let ghost names = catalog_names(pss);
    let mut out: Vec<YumUpdate> = Vec::new();
    let ghost mut wits: Seq<int> = Seq::empty();
    let mut i: usize = n;
    while i > 0
        invariant
            wf_catalog(pss),
            pss == repository.packages@,
            ps@ == pss,
            names == catalog_names(pss),
            n == pss.len(),
            i <= n,
            wits.len() == out@.len(),
            forall|j: int|
                0 <= j < out@.len() ==> {
                    &&& is_last_occ(pss, #[trigger] wits[j])
                    &&& i <= wits[j]
                    &&& pss[wits[j]].name@ == out@[j].name@
                    &&& out@[j].version@ == pss[wits[j]].versions@[0].version@
                },
            forall|j1: int, j2: int| 0 <= j1 < j2 < out@.len() ==> out@[j1].name@ != out@[j2].name@,
            forall|k: int|
                i <= k < n ==> exists|j: int| 0 <= j < out@.len() && #[trigger] out@[j].name@
                    == #[trigger] pss[k].name@,
            update_names(out@) == dedup_suffix_rev(names, i as int),
        decreases i,
    {
        i -= 1;
        proof {
            assert(pss[i as int].versions@.len() > 0);
        }
        let ghost out0 = out@;
        let ghost wits0 = wits;
        let ghost ii = i as int;
        match find_update(&out, ps[i].name.as_str()) {
            None => {
                proof {
                    lemma_seq_first_idx(update_names(out0), pss[ii].name@);
                    assert forall|j: int| 0 <= j < out0.len() implies out0[j].name@
                        != pss[ii].name@ by {
                        assert(update_names(out0)[j] == out0[j].name@);
                    }
                    // no later record bears this name, else it would be
                    // represented already
                    assert forall|k: int| ii < k < n implies pss[k].name@ != pss[ii].name@ by {
                        let j = choose|j: int|
                            0 <= j < out0.len() && #[trigger] out0[j].name@ == pss[k].name@;
                    }
                    assert(is_last_occ(pss, ii));
                }
                let upd = YumUpdate {
                    name: ps[i].name.clone(),
                    version: ps[i].versions[0].version.clone(),
                };
                out.push(upd);
                proof {
                    wits = wits0.push(ii);
                }
                proof {
                    assert forall|j: int| 0 <= j < out@.len() implies {
                        &&& is_last_occ(pss, #[trigger] wits[j])
                        &&& ii <= wits[j]
                        &&& pss[wits[j]].name@ == out@[j].name@
                        &&& out@[j].version@ == pss[wits[j]].versions@[0].version@
                    } by {
                        if j < out0.len() {
                            assert(is_last_occ(pss, wits0[j]));
                            assert(pss[wits0[j]].name@ == out0[j].name@);
                        } else {
                            assert(wits[j] == ii);
                        }
                    }
                    assert forall|j1: int, j2: int| 0 <= j1 < j2 < out@.len() implies out@[j1].name@
                        != out@[j2].name@ by {
                        if j2 == out0.len() {
                            assert(out@[j1].name@ == out0[j1].name@);
                        }
                    }
                    assert forall|k: int| ii <= k < n implies exists|j: int|
                        0 <= j < out@.len() && #[trigger] out@[j].name@
                            == #[trigger] pss[k].name@ by {
                        if k == ii {
                            assert(out@[out0.len() as int].name@ == pss[ii].name@);
                        } else {
                            let j = choose|j: int|
                                0 <= j < out0.len() && #[trigger] out0[j].name@ == pss[k].name@;
                            assert(out@[j].name@ == pss[k].name@);
                        }
                    }
                    assert(update_names(out@) =~= update_names(out0).push(pss[ii].name@));
                    assert(!update_names(out0).contains(pss[ii].name@));
                    assert(names[ii] == pss[ii].name@);
                    assert(update_names(out@) == dedup_suffix_rev(names, ii));
                }
            },
            Some(p) => {
                proof {
                    let pi = p as int;
                    lemma_seq_first_idx(update_names(out0), pss[ii].name@);
                    assert(update_names(out0)[pi] == out0[pi].name@);
                    assert(out0[pi].name@ == pss[ii].name@);
                    assert forall|k: int| ii <= k < n implies exists|j: int|
                        0 <= j < out@.len() && #[trigger] out@[j].name@
                            == #[trigger] pss[k].name@ by {
                        if k == ii {
                            assert(out@[pi].name@ == pss[ii].name@);
                        }
                    }
                    assert(update_names(out0).contains(names[ii]));
                    assert(update_names(out@) == dedup_suffix_rev(names, ii));
                }
            },
        }
    }
    proof {
        assert forall|j: int| 0 <= j < out@.len() implies exists|w: int|
            is_last_occ(pss, w) && pss[w].name@ == #[trigger] out@[j].name@ && out@[j].version@
                == pss[w].versions@[0].version@ by {
            assert(is_last_occ(pss, wits[j]));
        }
    }
    out
}

/// Collapses a raw catalog under the given strategy.
pub fn reduce_catalog(repository: &YumRepository, policy: ReducePolicy) -> (r: Vec<YumUpdate>)
    requires
        wf_catalog(repository.packages@),
    ensures
        policy == ReducePolicy::HighestVersion ==> reduced_by_highest(repository.packages@, r@),
        policy == ReducePolicy::LastOccurrence ==> reduced_by_last(repository.packages@, r@),
{
    match policy {
        ReducePolicy::HighestVersion => reduce_catalog_highest(repository),
        ReducePolicy::LastOccurrence => reduce_catalog_last(repository),
    }
}

/// The position of the first reduced record named `name`, if any.
pub fn find_update(updates: &Vec<YumUpdate>, name: &str) -> (r: Option<usize>)
    ensures
        match r {
            Some(i) => seq_first_idx(update_names(updates@), name@) == Some(i as int),
            None => seq_first_idx(update_names(updates@), name@) is None,
        },
{
    let n = updates.len();
    let ghost names = update_names(updates@);
    let mut i: usize = 0;
    while i < n
        invariant
            n == updates@.len(),
            names == update_names(updates@),
            i <= n,
            forall|j: int| 0 <= j < i ==> names[j] != name@,
        decreases n - i,
    {
        if str_eq(updates[i].name.as_str(), name) {
            proof {
                assert(names[i as int] == updates@[i as int].name@);
                lemma_seq_first_idx(names, name@);
            }
            return Some(i);
        }
        i += 1;
    }
    proof {
        lemma_seq_first_idx(names, name@);
    }
    None
}

/// The outcome owed for one row of a flat catalog mapping: the local
/// package is looked up by its local name, the reduced record by its
/// upstream name, and the decision compares the local version without its
/// release suffix against the record's version.
pub open spec fn yum_row_spec(
    m: PackageMapping,
    packages: Seq<AurPackage>,
    updates: Seq<YumUpdate>,
    show_all: bool,
) -> Result<ReportV, FailureV> {
    match seq_first_idx(aur_names(packages), m.local_name@) {
        None => Err(FailureV { name: m.local_name@, error: ReconcileError::UnknownPackage }),
        Some(pi) => match seq_first_idx(update_names(updates), m.upstream_name@) {
            None => Err(
                FailureV { name: m.local_name@, error: ReconcileError::UnknownUpstreamProduct },
            ),
            Some(ui) => Ok(
                decision_spec(
                    packages[pi].name@,
                    strip_release_spec(packages[pi].version@),
                    updates[ui].version@,
                    show_all,
                ),
            ),
        },
    }
}

/// The decision for one matched pair: the local version without its release
/// suffix against the reduced record's version.
pub fn print_yum_update(package: &AurPackage, update: &YumUpdate, show_all: bool) -> (r:
    UpdateResult)
    ensures
        r@ == decision_spec(
            package.name@,
            strip_release_spec(package.version@),
            update.version@,
            show_all,
        ),
{
    update_decision(
        package.name.as_str(),
        package.get_package_version(),
        update.version.as_str(),
        show_all,
    )
}

/// Reconciles every row of a flat catalog mapping, collecting one outcome
/// per row: a failed lookup yields that row's error and leaves the other
/// rows untouched.
pub fn print_yum_updates(
    products: Vec<PackageMapping>,
    packages: Vec<AurPackage>,
    updates: Vec<YumUpdate>,
    show_all: bool,
) -> (r: Vec<Result<UpdateResult, PackageFailure>>)
    ensures
        r@.len() == products@.len(),
        forall|k: int|
            0 <= k < r@.len() ==> outcome_view(#[trigger] r@[k]) == yum_row_spec(
                products@[k],
                packages@,
                updates@,
                show_all,
            ),
{
    let mut r: Vec<Result<UpdateResult, PackageFailure>> = Vec::new();
    let mut k: usize = 0;
    while k < products.len()
        invariant
            k <= products@.len(),
            r@.len() == k,
            forall|t: int|
                0 <= t < k ==> outcome_view(#[trigger] r@[t]) == yum_row_spec(
                    products@[t],
                    packages@,
                    updates@,
                    show_all,
                ),
        decreases products@.len() - k,
    {
        let m = &products[k];
        let row = match find_aur_package(&packages, m.local_name.as_str()) {
            None => Err(
                PackageFailure {
                    name: m.local_name.clone(),
                    error: ReconcileError::UnknownPackage,
                },
            ),
            Some(pi) => {
                proof {
                    lemma_seq_first_idx(aur_names(packages@), m.local_name@);
                }
                match find_update(&updates, m.upstream_name.as_str()) {
                    None => Err(
                        PackageFailure {
                            name: m.local_name.clone(),
                            error: ReconcileError::UnknownUpstreamProduct,
                        },
                    ),
                    Some(ui) => {
                        proof {
                            lemma_seq_first_idx(update_names(updates@), m.upstream_name@);
                        }
                        Ok(print_yum_update(&packages[pi], &updates[ui], show_all))
                    },
                }
            },
        };
        r.push(row);
        k += 1;
    }
    r
}

} // verus!
