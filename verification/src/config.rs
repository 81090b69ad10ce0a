//! The repositories the proxy reports on.
use vstd::prelude::*;

verus! {

/// A repository to report on, and the token that reads its pipelines.
#[derive(Debug, Clone)]
pub struct Config {
    /// The repository, as `<workspace>/<slug>` or its UUID.
    pub id: String,
    /// A token with read access to the repository's pipelines.
    pub bearer_token: String,
}

} // verus!
