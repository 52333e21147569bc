//! The Microsoft Edge repository: building the URL of a file inside the
//! fixed yum repository root.

use vstd::prelude::*;

verus! {

/// The URL of `path` inside the Edge yum repository.
pub fn get_url(path: &str) -> (r: String)
    ensures
        r@ == "https://packages.microsoft.com/yumrepos/edge/"@ + path@,
{
    let base = "https://packages.microsoft.com/yumrepos/edge/".to_owned();
    base.concat(path)
}

} // verus!
