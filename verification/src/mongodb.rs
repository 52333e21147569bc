//! The MongoDB repository: building the URL of a file inside the fixed yum
//! repository root.

use vstd::prelude::*;

verus! {

/// The URL of `path` inside the MongoDB yum repository.
pub fn get_url(path: &str) -> (r: String)
    ensures
        r@ == "https://repo.mongodb.org/yum/redhat/8/mongodb-org/8.0/x86_64/"@ + path@,
{
    let base = "https://repo.mongodb.org/yum/redhat/8/mongodb-org/8.0/x86_64/".to_owned();
    base.concat(path)
}

} // verus!
