//! The command line of the proxy.
use vstd::prelude::*;

verus! {

/// The arguments the proxy is started with.
#[derive(Debug)]
pub struct Cli {
    /// The path of the JSON file that lists the repositories to report on.
    pub repo_config_path: String,
}

} // verus!
