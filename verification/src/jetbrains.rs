//! The multi-product release feed: its data model, channel selection, the
//! explicit rule table that picks a canonicalization per package, and the
//! reconciliation of a product mapping against the feed.

use vstd::prelude::*;

use crate::aur::{aur_names, find_aur_package, AurPackage};
use crate::mapping::ProductMapping;
use crate::report::{
    decision_spec, outcome_view, update_decision, FailureV, PackageFailure, ReconcileError,
    ReportV, UpdateResult,
};
use crate::strutil::{
    count_chars, find_char, find_substr, has_match, lemma_seq_first_idx, seq_count, seq_first_idx,
    str_eq, str_ends_with,
};
use crate::version::{
    get_package_build, get_package_pre_build, last_components_spec, pre_tag_spec, remove_epoch,
    remove_package_build, strip_build_spec, strip_epoch_spec, strip_release_spec,
};

verus! {

/// One build of a release channel; `full_number` carries the complete
/// build identifier where the feed provides it.
#[derive(Clone, Debug, PartialEq)]
pub struct Build {
    pub number: String,
    pub version: String,
    pub full_number: Option<String>,
}

/// One release channel of a product: its id and its builds, newest first.
#[derive(Clone, Debug, PartialEq)]
pub struct Channel {
    pub id: String,
    pub builds: Vec<Build>,
}

/// One product of the feed: its name and its channels, the most relevant
/// channel first.
#[derive(Clone, Debug, PartialEq)]
pub struct Product {
    pub name: String,
    pub channels: Vec<Channel>,
}

/// The whole release feed: one entry per product.
#[derive(Clone, Debug, PartialEq)]
pub struct JetBrainsRepository {
    pub products: Vec<Product>,
}

/// The channel ids of a product, in order.
pub open spec fn channel_ids(cs: Seq<Channel>) -> Seq<Seq<char>> {
    cs.map_values(|c: Channel| c.id@)
}

/// The product names of a feed, in order.
pub open spec fn product_names(ps: Seq<Product>) -> Seq<Seq<char>> {
    ps.map_values(|p: Product| p.name@)
}

/// Whether a local package name marks a pre-release track: it ends in
/// `eap`.
pub open spec fn ends_in_eap(name: Seq<char>) -> bool {
    name.len() >= 3 && name.subrange(name.len() - 3, name.len() as int) == "eap"@
}

/// Whether a local package name marks a pre-release track.
pub fn is_eap_package(name: &str) -> (r: bool)
    ensures
        r == ends_in_eap(name@),
{
    proof {
        reveal_strlit("eap");
    }
    str_ends_with(name, "eap")
}

/// Which canonicalization a package's versions go through. The selection
/// is an explicit table: see [`rule_for_spec`].
#[derive(Clone, Copy, Debug, PartialEq, Eq, Structural)]
pub enum VersionRule {
    /// The local version encodes a pre-release build as `<base>pre+<build>`;
    /// compare the part after the marker against the build's full number.
    PreTag,
    /// The local version is compared as it stands against the build's
    /// version.
    Unchanged,
    /// The local version embeds the upstream build id as trailing
    /// dot-components; compare its last three components against the
    /// build's full number.
    LastComponents,
    /// The local version appends an upstream build number after a literal
    /// `b`; compare the part before the `b` against the build's version.
    /// The rule fails when the version holds no `b`.
    StripBuild,
}

/// The rule table: the one package that encodes pre-release builds with a
/// `pre+` marker uses [`VersionRule::PreTag`] when the marker's `pre` text
/// occurs and [`VersionRule::Unchanged`] otherwise; every other pre-release
/// track uses [`VersionRule::LastComponents`]; stable tracks use
/// [`VersionRule::StripBuild`].
pub open spec fn rule_for_spec(package_name: Seq<char>, base: Seq<char>, is_eap: bool) -> VersionRule {
    if package_name == "rustrover-eap"@ {
        if has_match(base, "pre"@) {
            VersionRule::PreTag
        } else {
            VersionRule::Unchanged
        }
    } else if is_eap {
        VersionRule::LastComponents
    } else {
        VersionRule::StripBuild
    }
}

/// Selects the canonicalization rule for one package from the rule table.
pub fn rule_for(package_name: &str, base: &str, is_eap: bool) -> (r: VersionRule)
    ensures
        r == rule_for_spec(package_name@, base@, is_eap),
{
    if str_eq(package_name, "rustrover-eap") {
        if find_substr(base, "pre").is_some() {
            VersionRule::PreTag
        } else {
            VersionRule::Unchanged
        }
    } else if is_eap {
        VersionRule::LastComponents
    } else {
        VersionRule::StripBuild
    }
}

/// The canonical local version under a rule, or `MalformedVersion` when
/// the version lacks what the rule expects.
pub open spec fn apply_rule_spec(rule: VersionRule, base: Seq<char>) -> Result<
    Seq<char>,
    ReconcileError,
> {
    match rule {
        VersionRule::PreTag => if has_match(base, "pre+"@) {
            Ok(pre_tag_spec(base))
        } else {
            Err(ReconcileError::MalformedVersion)
        },
        VersionRule::Unchanged => Ok(base),
        VersionRule::LastComponents => if seq_count(base, '.') >= 2 {
            Ok(last_components_spec(base))
        } else {
            Err(ReconcileError::MalformedVersion)
        },
        VersionRule::StripBuild => match seq_first_idx(base, 'b') {
            Some(_) => Ok(strip_build_spec(base)),
            None => Err(ReconcileError::MalformedVersion),
        },
    }
}

/// The upstream version a rule compares against: the build's full number
/// for pre-release rules (`MalformedVersion` when the feed omits it), and
/// the build's version otherwise.
pub open spec fn upstream_of_spec(rule: VersionRule, build: Build) -> Result<
    Seq<char>,
    ReconcileError,
> {
    match rule {
        VersionRule::PreTag | VersionRule::LastComponents => match build.full_number {
            Some(f) => Ok(f@),
            None => Err(ReconcileError::MalformedVersion),
        },
        VersionRule::Unchanged | VersionRule::StripBuild => Ok(build.version@),
    }
}

/// The channel a mapping row selects within a product: the first channel
/// for a pre-release track, else the first channel whose id equals the
/// row's channel id exactly; `None` when no channel qualifies.
pub open spec fn channel_choice_spec(product: Product, channel_id: Seq<char>, is_eap: bool) -> Option<
    int,
> {
    if is_eap {
        if product.channels@.len() == 0 {
            None
        } else {
            Some(0int)
        }
    } else {
        seq_first_idx(channel_ids(product.channels@), channel_id)
    }
}

/// Selects the channel a mapping row asks for within `product`.
pub fn find_channel(product: &Product, channel_id: &str, is_eap: bool) -> (r: Option<usize>)
    ensures
        match r {
            Some(c) => channel_choice_spec(*product, channel_id@, is_eap) == Some(c as int),
            None => channel_choice_spec(*product, channel_id@, is_eap) is None,
        },
{
    if is_eap {
        if product.channels.len() == 0 {
            None
        } else {
            Some(0)
        }
    } else {
        let n = product.channels.len();
        let ghost ids = channel_ids(product.channels@);
        let mut i: usize = 0;
        while i < n
            invariant
                !is_eap,
                n == product.channels@.len(),
                ids == channel_ids(product.channels@),
                i <= n,
                forall|j: int| 0 <= j < i ==> ids[j] != channel_id@,
            decreases n - i,
        {
            if str_eq(product.channels[i].id.as_str(), channel_id) {
                proof {
                    assert(ids[i as int] == product.channels@[i as int].id@);
                    lemma_seq_first_idx(ids, channel_id@);
                }
                return Some(i);
            }
            i += 1;
        }
        proof {
            lemma_seq_first_idx(ids, channel_id@);
        }
        None
    }
}

/// The outcome owed for one package against its product: channel and build
/// selection, rule selection, canonicalization of both sides, and the
/// report decision.
pub open spec fn jetbrains_update_spec(
    channel_id: Seq<char>,
    package: AurPackage,
    product: Product,
    is_eap: bool,
    show_all: bool,
) -> Result<ReportV, ReconcileError> {
    match channel_choice_spec(product, channel_id, is_eap) {
        None => Err(ReconcileError::UnknownChannel),
        Some(ci) => {
            let channel = product.channels@[ci];
            if channel.builds@.len() == 0 {
                Err(ReconcileError::MalformedVersion)
            } else {
                let build = channel.builds@[0];
                let base = strip_epoch_spec(strip_release_spec(package.version@));
                let rule = rule_for_spec(package.name@, base, is_eap);
                match apply_rule_spec(rule, base) {
                    Err(e) => Err(e),
                    Ok(installed) => match upstream_of_spec(rule, build) {
                        Err(e) => Err(e),
                        Ok(upstream) => Ok(
                            decision_spec(package.name@, installed, upstream, show_all),
                        ),
                    },
                }
            }
        },
    }
}

/// The mathematical value of one package's outcome before it is tied to a
/// mapping row.
pub open spec fn jb_outcome_view(r: Result<UpdateResult, ReconcileError>) -> Result<
    ReportV,
    ReconcileError,
> {
    match r {
        Ok(u) => Ok(u@),
        Err(e) => Err(e),
    }
}

/// Reconciles one package against its product: selects the channel and its
/// newest build, canonicalizes both versions under the package's rule, and
/// decides the report.
pub fn print_jetbrains_update(
    channel_id: &str,
    package: &AurPackage,
    product: &Product,
    is_eap: bool,
    show_all: bool,
) -> (r: Result<UpdateResult, ReconcileError>)
    ensures
        jb_outcome_view(r) == jetbrains_update_spec(
            channel_id@,
            *package,
            *product,
            is_eap,
            show_all,
        ),
{
    let ci = match find_channel(product, channel_id, is_eap) {
        Some(c) => c,
        None => {
            return Err(ReconcileError::UnknownChannel);
        },
    };
    proof {
        if !is_eap {
            lemma_seq_first_idx(channel_ids(product.channels@), channel_id@);
        }
    }
    let channel = &product.channels[ci];
    if channel.builds.len() == 0 {
        return Err(ReconcileError::MalformedVersion);
    }
    let build = &channel.builds[0];
    let base = remove_epoch(package.get_package_version());
    let rule = rule_for(package.name.as_str(), base.as_str(), is_eap);
    let installed = match rule {
        VersionRule::PreTag => {
            if find_substr(base.as_str(), "pre+").is_none() {
                return Err(ReconcileError::MalformedVersion);
            }
            get_package_pre_build(base)
        },
        VersionRule::Unchanged => base,
        VersionRule::LastComponents => {
            if count_chars(base.as_str(), '.') < 2 {
                return Err(ReconcileError::MalformedVersion);
            }
            get_package_build(base)
        },
        VersionRule::StripBuild => {
            if find_char(base.as_str(), 'b').is_none() {
                return Err(ReconcileError::MalformedVersion);
            }
            remove_package_build(base)
        },
    };
    let upstream = match rule {
        VersionRule::PreTag | VersionRule::LastComponents => match &build.full_number {
            Some(f) => f,
            None => {
                return Err(ReconcileError::MalformedVersion);
            },
        },
        VersionRule::Unchanged | VersionRule::StripBuild => &build.version,
    };
    Ok(update_decision(package.name.as_str(), installed, upstream.as_str(), show_all))
}

/// The position of the first product named `name`, if any.
pub fn find_product(products: &Vec<Product>, name: &str) -> (r: Option<usize>)
    ensures
        match r {
            Some(i) => seq_first_idx(product_names(products@), name@) == Some(i as int),
            None => seq_first_idx(product_names(products@), name@) is None,
        },
{
    let n = products.len();
    let ghost names = product_names(products@);
    let mut i: usize = 0;
    while i < n
        invariant
            n == products@.len(),
            names == product_names(products@),
            i <= n,
            forall|j: int| 0 <= j < i ==> names[j] != name@,
        decreases n - i,
    {
        if str_eq(products[i].name.as_str(), name) {
            proof {
                assert(names[i as int] == products@[i as int].name@);
                lemma_seq_first_idx(names, name@);
            }
            return Some(i);
        }
        i += 1;
    }
    proof {
        lemma_seq_first_idx(names, name@);
    }
    None
}

/// The outcome owed for one row of a product mapping: the local package is
/// looked up by its local name, the product by the row's product name, and
/// the package is reconciled against it; any error is reported under the
/// row's local name.
pub open spec fn jetbrains_row_spec(
    m: ProductMapping,
    packages: Seq<AurPackage>,
    products: Seq<Product>,
    show_all: bool,
) -> Result<ReportV, FailureV> {
    match seq_first_idx(aur_names(packages), m.local_name@) {
        None => Err(FailureV { name: m.local_name@, error: ReconcileError::UnknownPackage }),
        Some(pi) => match seq_first_idx(product_names(products), m.product_name@) {
            None => Err(
                FailureV { name: m.local_name@, error: ReconcileError::UnknownUpstreamProduct },
            ),
            Some(qi) => match jetbrains_update_spec(
                m.channel_id@,
                packages[pi],
                products[qi],
                ends_in_eap(m.local_name@),
                show_all,
            ) {
                Ok(v) => Ok(v),
                Err(e) => Err(FailureV { name: m.local_name@, error: e }),
            },
        },
    }
}

/// Reconciles every row of a product mapping, collecting one outcome per
/// row: a failed lookup or a malformed version yields that row's error and
/// leaves the other rows untouched.
pub fn print_jetbrains_updates(
    products: Vec<ProductMapping>,
    packages: Vec<AurPackage>,
    repository: JetBrainsRepository,
    show_all: bool,
) -> (r: Vec<Result<UpdateResult, PackageFailure>>)
    ensures
        r@.len() == products@.len(),
        forall|k: int|
            0 <= k < r@.len() ==> outcome_view(#[trigger] r@[k]) == jetbrains_row_spec(
                products@[k],
                packages@,
                repository.products@,
                show_all,
            ),
{
    let mut r: Vec<Result<UpdateResult, PackageFailure>> = Vec::new();
    let mut k: usize = 0;
    while k < products.len()
        invariant
            k <= products@.len(),
            r@.len() == k,
            forall|t: int|
                0 <= t < k ==> outcome_view(#[trigger] r@[t]) == jetbrains_row_spec(
                    products@[t],
                    packages@,
                    repository.products@,
                    show_all,
                ),
        decreases products@.len() - k,
    {
        let m = &products[k];
        let row = match find_aur_package(&packages, m.local_name.as_str()) {
            None => Err(
                PackageFailure {
                    name: m.local_name.clone(),
                    error: ReconcileError::UnknownPackage,
                },
            ),
            Some(pi) => {
                proof {
                    lemma_seq_first_idx(aur_names(packages@), m.local_name@);
                }
                match find_product(&repository.products, m.product_name.as_str()) {
                    None => Err(
                        PackageFailure {
                            name: m.local_name.clone(),
                            error: ReconcileError::UnknownUpstreamProduct,
                        },
                    ),
                    Some(qi) => {
                        proof {
                            lemma_seq_first_idx(
                                product_names(repository.products@),
                                m.product_name@,
                            );
                        }
                        let is_eap = is_eap_package(m.local_name.as_str());
                        match print_jetbrains_update(
                            m.channel_id.as_str(),
                            &packages[pi],
                            &repository.products[qi],
                            is_eap,
                            show_all,
                        ) {
                            Ok(u) => Ok(u),
                            Err(e) => Err(PackageFailure { name: m.local_name.clone(), error: e }),
                        }
                    },
                }
            },
        };
        r.push(row);
        k += 1;
    }
    r
}

} // verus!
