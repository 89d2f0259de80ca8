//! Typed configuration value objects for the merged four-tier hierarchy.
//!
//! Precedence (fixed per option, higher beats lower):
//!   1. CLI overrides (`CliOverrides`)
//!   2. Local `.nod.toml` (`[hosts.<name>]` > `[fleet]` > `[defaults]`)
//!   3. Flake metadata (`config.nod`, materialized on the `HostEntity`)
//!   4. Compiled-in defaults (`root` / `22`, also on the `HostEntity`)
//!
//! The granular option structs mirror the `options.nod` surface of the NixOS
//! module; every field is optional so an absent section leaves its tier
//! unchanged. Paths are carried as strings.

use vstd::prelude::*;

verus! {

/// Highest-tier, per-run SSH overrides supplied by CLI flags.
#[derive(Debug, Clone, PartialEq, Eq)]
pub struct CliOverrides {
    /// CLI `--user` override, empty when not supplied.
    pub user: Option<String>,
    /// CLI `--port` override, empty when not supplied.
    pub port: Option<u16>,
    /// CLI `--identity-file` override, empty when not supplied.
    pub identity_file: Option<String>,
}

impl Default for CliOverrides {
    fn default() -> (r: Self)
        ensures
            r.user is None && r.port is None && r.identity_file is None,
    {
        CliOverrides { user: None, port: None, identity_file: None }
    }
}

/// SSH connection options of `options.nod.ssh`.
#[derive(Debug, Clone, PartialEq, Eq)]
pub struct SshProfileConfig {
    pub user: Option<String>,
    pub port: Option<u16>,
    pub identity_file: Option<String>,
    pub proxy_jump: Option<String>,
    pub proxy_command: Option<String>,
    pub sudo: Option<bool>,
    pub timeout_secs: Option<u32>,
    pub connect_timeout_secs: Option<u32>,
    pub extra_ssh_args: Option<Vec<String>>,
    pub allow_insecure: Option<bool>,
}

impl SshProfileConfig {
    /// Every option is unset.
    pub open spec fn is_unset(self) -> bool {
        &&& self.user is None
        &&& self.port is None
        &&& self.identity_file is None
        &&& self.proxy_jump is None
        &&& self.proxy_command is None
        &&& self.sudo is None
        &&& self.timeout_secs is None
        &&& self.connect_timeout_secs is None
        &&& self.extra_ssh_args is None
        &&& self.allow_insecure is None
    }
}

impl Default for SshProfileConfig {
    fn default() -> (r: Self)
        ensures
            r.is_unset(),
    {
        SshProfileConfig {
            user: None,
            port: None,
            identity_file: None,
            proxy_jump: None,
            proxy_command: None,
            sudo: None,
            timeout_secs: None,
            connect_timeout_secs: None,
            extra_ssh_args: None,
            allow_insecure: None,
        }
    }
}

/// Build customisation options (`options.nod.build`).
#[derive(Debug, Clone, PartialEq, Eq)]
pub struct BuildConfig {
    pub build_host: Option<String>,
    pub substituters: Option<Vec<String>>,
    pub trusted_public_keys: Option<Vec<String>>,
    pub eval_flags: Option<Vec<String>>,
    pub show_trace: Option<bool>,
    pub impure: Option<bool>,
}

impl BuildConfig {
    /// Every option is unset.
    pub open spec fn is_unset(self) -> bool {
        self.build_host is None && self.substituters is None && self.trusted_public_keys is None
            && self.eval_flags is None && self.show_trace is None && self.impure is None
    }
}

impl Default for BuildConfig {
    fn default() -> (r: Self)
        ensures
            r.is_unset(),
    {
        BuildConfig {
            build_host: None,
            substituters: None,
            trusted_public_keys: None,
            eval_flags: None,
            show_trace: None,
            impure: None,
        }
    }
}

/// Rollout / activation options (`options.nod.rollout`).
#[derive(Debug, Clone, PartialEq, Eq)]
pub struct RolloutConfig {
    pub priority: Option<u32>,
    pub action: Option<String>,
    pub auto_rollback: Option<bool>,
    pub reboot: Option<bool>,
    pub magic_rollback: Option<bool>,
    pub magic_rollback_timeout_secs: Option<u32>,
    /// Hosts that must be deployed before this one.
    pub depends_on: Vec<String>,
}

impl RolloutConfig {
    /// Every option is unset.
    pub open spec fn is_unset(self) -> bool {
        self.priority is None && self.action is None && self.auto_rollback is None && self.reboot is None
            && self.magic_rollback is None && self.magic_rollback_timeout_secs is None
            && self.depends_on@.len() == 0
    }
}

impl Default for RolloutConfig {
    fn default() -> (r: Self)
        ensures
            r.is_unset(),
    {
        RolloutConfig {
            priority: None,
            action: None,
            auto_rollback: None,
            reboot: None,
            magic_rollback: None,
            magic_rollback_timeout_secs: None,
            depends_on: Vec::new(),
        }
    }
}

/// systemd unit verification sub-settings (`options.nod.healthChecks.systemd`).
#[derive(Debug, Clone, PartialEq, Eq)]
pub struct SystemdHealthConfig {
    pub check_running: Option<bool>,
    pub check_failed_units: Option<bool>,
    pub required_units: Option<Vec<String>>,
}

impl SystemdHealthConfig {
    /// Every option is unset.
    pub open spec fn is_unset(self) -> bool {
        self.check_running is None && self.check_failed_units is None && self.required_units is None
    }
}

impl Default for SystemdHealthConfig {
    fn default() -> (r: Self)
        ensures
            r.is_unset(),
    {
        SystemdHealthConfig { check_running: None, check_failed_units: None, required_units: None }
    }
}

/// One HTTP probe (`options.nod.healthChecks.httpProbes` entry).
#[derive(Debug, Clone, PartialEq, Eq)]
pub struct HttpProbeConfig {
    pub url: Option<String>,
    pub expected_status: Option<u16>,
    pub timeout_secs: Option<u32>,
}

/// One custom probe (`options.nod.healthChecks.customProbes` entry).
#[derive(Debug, Clone, PartialEq, Eq)]
pub struct CustomProbeConfig {
    pub name: Option<String>,
    pub command: Option<String>,
    pub timeout_secs: Option<u32>,
}

/// Health-verification options (`options.nod.healthChecks`).
#[derive(Debug, Clone, PartialEq, Eq)]
pub struct HealthCheckConfig {
    pub enable: Option<bool>,
    pub timeout_secs: Option<u32>,
    pub systemd: SystemdHealthConfig,
    pub tcp_ports: Option<Vec<u16>>,
    pub http_probes: Option<Vec<HttpProbeConfig>>,
    pub custom_probes: Option<Vec<CustomProbeConfig>>,
}

impl HealthCheckConfig {
    /// Every option is unset.
    pub open spec fn is_unset(self) -> bool {
        self.enable is None && self.timeout_secs is None && self.systemd.is_unset() && self.tcp_ports is None
            && self.http_probes is None && self.custom_probes is None
    }
}

impl Default for HealthCheckConfig {
    fn default() -> (r: Self)
        ensures
            r.is_unset(),
    {
        HealthCheckConfig {
            enable: None,
            timeout_secs: None,
            systemd: SystemdHealthConfig::default(),
            tcp_ports: None,
            http_probes: None,
            custom_probes: None,
        }
    }
}

/// Switch lifecycle hooks (`options.nod.hooks`).
#[derive(Debug, Clone, PartialEq, Eq)]
pub struct HooksConfig {
    pub pre_switch_hook: Option<String>,
    pub post_switch_hook: Option<String>,
}

impl HooksConfig {
    /// Every option is unset.
    pub open spec fn is_unset(self) -> bool {
        self.pre_switch_hook is None && self.post_switch_hook is None
    }
}

impl Default for HooksConfig {
    fn default() -> (r: Self)
        ensures
            r.is_unset(),
    {
        HooksConfig { pre_switch_hook: None, post_switch_hook: None }
    }
}

/// The full flake `config.nod` surface (tier 3).
#[derive(Debug, Clone, PartialEq, Eq)]
pub struct NodConfig {
    pub enable: Option<bool>,
    pub target_host: Option<String>,
    pub user: Option<String>,
    pub role: Option<String>,
    pub tags: Vec<String>,
    pub description: Option<String>,
    pub ssh: SshProfileConfig,
    pub build: BuildConfig,
    pub rollout: RolloutConfig,
    pub health_checks: HealthCheckConfig,
    pub hooks: HooksConfig,
    /// Hosts that must be deployed before this one (top-level spelling).
    pub depends_on: Vec<String>,
}

impl NodConfig {
    /// Every option is unset: what a host without the nod module carries.
    pub open spec fn is_unset(self) -> bool {
        &&& self.enable is None
        &&& self.target_host is None
        &&& self.user is None
        &&& self.role is None
        &&& self.tags@.len() == 0
        &&& self.description is None
        &&& self.ssh.is_unset()
        &&& self.build.is_unset()
        &&& self.rollout.is_unset()
        &&& self.health_checks.is_unset()
        &&& self.hooks.is_unset()
        &&& self.depends_on@.len() == 0
    }
}

impl Default for NodConfig {
    fn default() -> (r: Self)
        ensures
            r.is_unset(),
    {
        NodConfig {
            enable: None,
            target_host: None,
            user: None,
            role: None,
            tags: Vec::new(),
            description: None,
            ssh: SshProfileConfig::default(),
            build: BuildConfig::default(),
            rollout: RolloutConfig::default(),
            health_checks: HealthCheckConfig::default(),
            hooks: HooksConfig::default(),
            depends_on: Vec::new(),
        }
    }
}

/// The merged SSH connection values of one tier cascade.
#[derive(Debug, Clone, PartialEq, Eq)]
pub struct SshConnectionOverrides {
    pub user: Option<String>,
    pub port: Option<u16>,
    pub identity_file: Option<String>,
    pub proxy_jump: Option<String>,
    pub proxy_command: Option<String>,
    pub sudo: Option<bool>,
    pub timeout_secs: Option<u32>,
    pub connect_timeout_secs: Option<u32>,
    pub extra_ssh_args: Option<Vec<String>>,
    pub allow_insecure: Option<bool>,
}

/// Merged per-host overrides: TOML `[hosts.<name>]` over `[fleet]` over
/// `[defaults]`, with the CLI tier on top of the SSH values. `target_host`,
/// `role`, `tags` and `description` are host-section-specific.
#[derive(Debug, Clone, PartialEq, Eq)]
pub struct HostOverrides {
    pub ssh: SshConnectionOverrides,
    pub target_host: Option<String>,
    pub description: Option<String>,
    pub role: Option<String>,
    pub tags: Option<Vec<String>>,
    pub build: Option<BuildConfig>,
    pub rollout: Option<RolloutConfig>,
    pub health_checks: Option<HealthCheckConfig>,
    pub hooks: Option<HooksConfig>,
}

/// Fleet-wide merged defaults: TOML `[defaults]` then `[fleet]`, with no CLI
/// tier, plus the optional default flake root of `[defaults]`.
#[derive(Debug, Clone, PartialEq, Eq)]
pub struct FleetDefaults {
    pub ssh: SshConnectionOverrides,
    pub flake: Option<String>,
    pub description: Option<String>,
    pub build: Option<BuildConfig>,
    pub rollout: Option<RolloutConfig>,
    pub health_checks: Option<HealthCheckConfig>,
    pub hooks: Option<HooksConfig>,
}

} // verus!
