//! Shared reporting types: the error taxonomy, the outcome of reconciling
//! one package, and the decision whether a report line is owed.

use vstd::prelude::*;

use crate::strutil::str_eq;

verus! {

/// Why reconciliation failed for one package.
#[derive(Clone, Copy, Debug, PartialEq, Eq, Structural)]
pub enum ReconcileError {
    /// A raw version string does not match the encoding its selected rule
    /// expects, or an upstream record lacks the build data the rule needs.
    MalformedVersion,
    /// The mapping names a local package absent from the local package list.
    UnknownPackage,
    /// The mapping names an upstream product or catalog key absent from the
    /// fetched catalog.
    UnknownUpstreamProduct,
    /// The mapping names a channel id absent from the product's channels.
    UnknownChannel,
}

impl ReconcileError {
    /// A short diagnostic text for this error.
    pub fn message(&self) -> (m: &'static str)
        ensures
            m@ == match *self {
                ReconcileError::MalformedVersion => "malformed version"@,
                ReconcileError::UnknownPackage => "unknown package"@,
                ReconcileError::UnknownUpstreamProduct => "unknown upstream product"@,
                ReconcileError::UnknownChannel => "unknown channel"@,
            },
    {
        match *self {
            ReconcileError::MalformedVersion => "malformed version",
            ReconcileError::UnknownPackage => "unknown package",
            ReconcileError::UnknownUpstreamProduct => "unknown upstream product",
            ReconcileError::UnknownChannel => "unknown channel",
        }
    }
}

/// The outcome of comparing one local package against its upstream record.
#[derive(Clone, Debug, PartialEq)]
pub struct UpdateResult {
    pub name: String,
    pub installed_canonical: String,
    pub upstream_canonical: String,
    pub should_report: bool,
}

/// The mathematical value of an [`UpdateResult`].
pub ghost struct ReportV {
    pub name: Seq<char>,
    pub installed: Seq<char>,
    pub upstream: Seq<char>,
    pub should_report: bool,
}

impl View for UpdateResult {
    type V = ReportV;

    open spec fn view(&self) -> ReportV {
        ReportV {
            name: self.name@,
            installed: self.installed_canonical@,
            upstream: self.upstream_canonical@,
            should_report: self.should_report,
        }
    }
}

/// A per-package failure, reported without aborting the rest of the batch.
#[derive(Clone, Debug, PartialEq)]
pub struct PackageFailure {
    pub name: String,
    pub error: ReconcileError,
}

/// The mathematical value of a [`PackageFailure`].
pub ghost struct FailureV {
    pub name: Seq<char>,
    pub error: ReconcileError,
}

impl View for PackageFailure {
    type V = FailureV;

    open spec fn view(&self) -> FailureV {
        FailureV { name: self.name@, error: self.error }
    }
}

/// The mathematical value of one package's reconciliation outcome.
pub open spec fn outcome_view(r: Result<UpdateResult, PackageFailure>) -> Result<
    ReportV,
    FailureV,
> {
    match r {
        Ok(u) => Ok(u@),
        Err(f) => Err(f@),
    }
}

/// The report owed for one package: a line is shown when `show_all` is set
/// or the two canonical versions differ.
pub open spec fn decision_spec(
    name: Seq<char>,
    installed: Seq<char>,
    upstream: Seq<char>,
    show_all: bool,
) -> ReportV {
    ReportV { name, installed, upstream, should_report: show_all || installed != upstream }
}

/// Builds the decision for one package from its canonical versions.
pub fn update_decision(name: &str, installed: String, upstream: &str, show_all: bool) -> (r:
    UpdateResult)
    ensures
        r@ == decision_spec(name@, installed@, upstream@, show_all),
{
    let flag = show_all || !str_eq(installed.as_str(), upstream);
    UpdateResult {
        name: name.to_owned(),
        installed_canonical: installed,
        upstream_canonical: upstream.to_owned(),
        should_report: flag,
    }
}

/// Whether a report line is owed, on its own: `show_all` forces a line, and
/// otherwise one is owed exactly when the canonical versions differ.
pub fn should_report(version: &String, new_version: &String, show_all: bool) -> (r: bool)
    ensures
        r == (show_all || version@ != new_version@),
{
    show_all || !version.eq(new_version)
}

} // verus!
