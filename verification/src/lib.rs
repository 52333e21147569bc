//! Version reconciliation for locally packaged software against upstream
//! catalogs: canonicalizing raw version strings, reducing multi-record
//! catalogs to one record per package, matching local package identities to
//! upstream products and channels, and deciding whether an update is worth
//! reporting.

pub mod aur;
pub mod chrome;
pub mod edge;
pub mod jetbrains;
pub mod mapping;
pub mod mongodb;
pub mod report;
pub mod semver_keys;
pub mod strutil;
pub mod version;
pub mod yum;

