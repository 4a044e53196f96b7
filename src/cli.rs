//! The commands the program accepts.
use vstd::prelude::*;

verus! {

/// A parsed command line.
#[derive(Debug)]
pub struct Cli {
    pub command: Commands,
}

/// What to do: follow a cluster's blocks as they are finalized, or look up
/// one block.
#[derive(Debug)]
pub enum Commands {
    Track { cluster: String },
    Block { cluster: String, block_id: u64 },
}

} // verus!
