//! Store optimisation and binary cache reports.

use vstd::prelude::*;

verus! {

/// Outcome of hardlink store deduplication (`nix-store --optimise`).
#[derive(Debug, Clone, PartialEq, Eq)]
pub struct StoreOptimizeReport {
    pub host_name: String,
    /// Whether optimisation succeeded.
    pub ok: bool,
    /// Approximate bytes freed through deduplication, if available.
    pub freed_bytes: Option<u64>,
    /// Error message if optimisation failed.
    pub error: Option<String>,
}

/// Options controlling closure pushing to a binary cache.
#[derive(Debug, Clone, PartialEq, Eq)]
pub struct CachePushOptions {
    /// Destination binary cache URI (e.g. `s3://cache`).
    pub cache_uri: Option<String>,
    /// Preview push operations without transferring data.
    pub dry_run: bool,
    /// Maximum concurrent cache pushes.
    pub concurrency: usize,
}

impl Default for CachePushOptions {
    fn default() -> (r: CachePushOptions)
        ensures
            r.cache_uri is None && !r.dry_run && r.concurrency == 4,
    {
        CachePushOptions { cache_uri: None, dry_run: false, concurrency: 4 }
    }
}

/// Outcome of pushing a system closure to a binary cache.
#[derive(Debug, Clone, PartialEq, Eq)]
pub struct CachePushReport {
    pub host_name: String,
    /// Store path that was pushed.
    pub closure_path: String,
    /// Binary cache destination URI.
    pub cache_uri: String,
    /// Whether the push completed successfully.
    pub ok: bool,
    /// Error details if the push failed.
    pub error: Option<String>,
}

} // verus!
