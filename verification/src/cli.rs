//! What a run is asked to do.

use vstd::prelude::*;

verus! {

/// The options of a run.
#[derive(Debug, PartialEq, Eq)]
pub struct DoksOpts {
    pub namespace: String,
    /// The path of the configuration file.
    pub config_file: String,
    pub cmd: DoksCommand,
}

/// The command of a run.
#[derive(Debug, PartialEq, Eq)]
pub enum DoksCommand {
    /// Fetch every configured source and index its documents.
    Index,
    /// Look a query up in the index.
    Search { query: String },
    /// Empty the index.
    Purge,
}

} // verus!
