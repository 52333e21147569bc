//! The static product-mapping configuration: which upstream entity each
//! local package corresponds to. The tables are plain data supplied by the
//! caller; the matchers consume them as input.

use vstd::prelude::*;

verus! {

/// One row of a flat catalog mapping: a local package name and the name its
/// upstream records are listed under.
#[derive(Clone, Debug, PartialEq)]
pub struct PackageMapping {
    pub local_name: String,
    pub upstream_name: String,
}

/// One row of a multi-product feed mapping: a local package name, the
/// upstream product it belongs to, and the channel to compare against.
/// A local name ending in `eap` marks a pre-release track, which takes the
/// feed's first channel instead of `channel_id`.
#[derive(Clone, Debug, PartialEq)]
pub struct ProductMapping {
    pub local_name: String,
    pub product_name: String,
    pub channel_id: String,
}

} // verus!
