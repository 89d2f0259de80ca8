//! Plain records exchanged with the command layer: host diagnostics,
//! evaluation results, watch and GitOps sync settings and reports.

use vstd::prelude::*;
use crate::json::JsonValue;

verus! {

/// Static and runtime diagnostic information for a fleet host.
#[derive(Debug, Clone, PartialEq, Eq)]
pub struct HostInfo {
    /// Discovered host name.
    pub host_name: String,
    /// Destination IP or host address used for connections.
    pub target_host: String,
    /// True if the targeted host is the current local machine.
    pub is_local: bool,
    /// Declared role (e.g. `desktop`, `server`).
    pub role: String,
    /// Declared tags.
    pub tags: Vec<String>,
    /// Configured SSH user.
    pub ssh_user: String,
    /// Configured SSH port.
    pub ssh_port: u16,
    /// Configured remote builder assignment, if any.
    pub builder: Option<String>,
    /// Active profile generation number on the host.
    pub active_generation: Option<u32>,
    /// Store path currently activated as `/run/current-system`.
    pub current_closure: Option<String>,
    /// Store path booted as `/run/booted-system`.
    pub booted_closure: Option<String>,
    /// Active Linux kernel release string (`uname -r`).
    pub kernel_version: Option<String>,
    /// Formatted host uptime string.
    pub uptime: Option<String>,
    /// Systemd manager operational status (`running`, `degraded`, ...).
    pub health_status: Option<String>,
}

/// The result of evaluating a Nix expression in a host's configuration.
#[derive(Debug, PartialEq, Eq)]
pub struct EvalResult {
    /// Target host name where the expression was evaluated.
    pub host_name: String,
    /// Attribute expression that was queried.
    pub expression: String,
    /// Raw evaluated text from Nix.
    pub raw_output: String,
    /// Structured value when evaluated with `--json`.
    pub json_value: Option<JsonValue>,
}

/// Options controlling interactive watch mode.
#[derive(Debug, Clone, PartialEq, Eq)]
pub struct WatchOptions {
    /// Polling interval in seconds when checking file modifications.
    pub poll_interval_secs: u64,
    /// Debounce duration in milliseconds before triggering evaluation.
    pub debounce_ms: u64,
}

impl Default for WatchOptions {
    fn default() -> (r: Self)
        ensures
            r.poll_interval_secs == 2,
            r.debounce_ms == 500,
    {
        WatchOptions { poll_interval_secs: 2, debounce_ms: 500 }
    }
}

/// Options controlling pull-based GitOps synchronization.
#[derive(Debug, Clone, PartialEq, Eq)]
pub struct SyncOptions {
    /// Upstream Git remote name.
    pub remote: String,
    /// Target Git branch.
    pub branch: String,
    /// Reconciliation interval in seconds.
    pub interval_secs: u64,
    /// Preview git changes and build without activating.
    pub dry_run: bool,
    /// Run once and exit rather than looping.
    pub once: bool,
}

impl Default for SyncOptions {
    fn default() -> (r: Self)
        ensures
            r.remote@ == "origin"@,
            r.branch@ == "main"@,
            r.interval_secs == 300,
            !r.dry_run,
            !r.once,
    {
        SyncOptions {
            remote: String::from_str("origin"),
            branch: String::from_str("main"),
            interval_secs: 300,
            dry_run: false,
            once: false,
        }
    }
}

/// Outcome of a GitOps synchronization iteration.
#[derive(Debug, Clone, PartialEq, Eq)]
pub struct SyncReport {
    /// Current head commit hash.
    pub commit_hash: String,
    /// Whether changes were detected and applied.
    pub applied: bool,
    /// Error message if reconciliation failed.
    pub error: Option<String>,
}

} // verus!
