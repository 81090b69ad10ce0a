//! The address of the listing of a repository's pipeline runs.
use vstd::prelude::*;
use crate::text::{decimal, decimal_string};

verus! {

/// The number of runs asked for in one listing.
pub const PAGE_LENGTH: u64 = 100;

/// `<base>/<repo_id>/pipelines/?pagelen=100&&sort=-created_on`: the newest runs of a repository
/// in Bitbucket's API.
pub fn request_url(repo_id: &str) -> (r: String)
    ensures
        r@ == "https://api.bitbucket.org/2.0/repositories"@ + "/"@ + repo_id@ + "/pipelines/?pagelen="@
            + decimal(PAGE_LENGTH as nat) + "&&sort=-created_on"@,
{
    let mut r = String::from_str("https://api.bitbucket.org/2.0/repositories");
    r.append("/");
    r.append(repo_id);
    r.append("/pipelines/?pagelen=");
    r.append(decimal_string(PAGE_LENGTH).as_str());
    r.append("&&sort=-created_on");
    r
}

} // verus!
