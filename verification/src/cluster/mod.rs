//! Reading along cluster chains.

use vstd::prelude::*;

pub mod reader;

verus! {

/// How the clusters of an allocation are found.
#[derive(Debug, Clone, Copy, PartialEq, Eq)]
#[allow(inconsistent_fields)]
pub enum ClusterChainOptions {
    /// The clusters follow one another from the first on; the FAT is not
    /// asked.
    Contiguous { data_length: u64 },
    /// The FAT says which cluster follows which. Without a length the data
    /// fills the chain's clusters.
    Fat { data_length: Option<u64> },
}

impl Default for ClusterChainOptions {
    /// The FAT's chain, filled to its end.
    fn default() -> (r: ClusterChainOptions)
        ensures
            r == (ClusterChainOptions::Fat { data_length: None }),
    {
        ClusterChainOptions::Fat { data_length: None }
    }
}

} // verus!
