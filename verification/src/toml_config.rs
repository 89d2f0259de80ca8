//! The `.nod.toml` configuration store: host overrides and fleet defaults.
//!
//! Per-host connection options follow a four-tier precedence, the highest
//! tier that sets an option winning for that option:
//!   1. CLI overrides (seeded at construction),
//!   2. the local `.nod.toml` (`[hosts.<name>.ssh]` > flat `[hosts.<name>]`
//!      keys > `[fleet]` > `[defaults]`),
//!   3. flake metadata (`config.nod.ssh`, materialized on the `HostEntity`),
//!   4. compiled-in defaults (carried by the `HostEntity` and its profile).
//!
//! The store works on the parsed file; finding and reading the file is the
//! caller's. The flake cascade for a run is: explicit CLI `--flake` >
//! `[defaults].flake` (relative to the file's directory) > `.`.

use vstd::prelude::*;
use crate::config::{
    BuildConfig, CliOverrides, CustomProbeConfig, FleetDefaults, HealthCheckConfig, HooksConfig,
    HostOverrides, HttpProbeConfig, RolloutConfig, SshConnectionOverrides, SshProfileConfig,
    SystemdHealthConfig,
};
use crate::host::{HostEntity, SshProfile, SshProfileView};
use crate::text::{clone_opt, clone_opt_strings, opt_view, path_pushed, push_path, str_eq, views};

verus! {

/// SSH settings shared by the `[defaults]`, `[fleet]` and nested
/// `[hosts.<name>.ssh]` sections. Fields are optional so an absent value
/// leaves the tier below in charge.
#[derive(Debug, Clone, PartialEq, Eq)]
pub struct SshOverrides {
    pub user: Option<String>,
    pub port: Option<u16>,
    pub identity_file: Option<String>,
    pub proxy_jump: Option<String>,
    pub proxy_command: Option<String>,
    pub sudo: Option<bool>,
    pub timeout_secs: Option<u32>,
    pub connect_timeout_secs: Option<u32>,
    pub extra_ssh_args: Option<Vec<String>>,
    pub allow_insecure: Option<bool>,
}

/// Mathematical form of one tier's SSH settings.
pub struct SshOverridesView {
    pub user: Option<Seq<char>>,
    pub port: Option<u16>,
    pub identity_file: Option<Seq<char>>,
    pub proxy_jump: Option<Seq<char>>,
    pub proxy_command: Option<Seq<char>>,
    pub sudo: Option<bool>,
    pub timeout_secs: Option<u32>,
    pub connect_timeout_secs: Option<u32>,
    pub extra_ssh_args: Option<Seq<Seq<char>>>,
    pub allow_insecure: Option<bool>,
}

/// The view of an optional list of strings.
pub open spec fn opt_views(o: Option<Vec<String>>) -> Option<Seq<Seq<char>>> {
    match o {
        Some(v) => Some(views(v@)),
        None => None,
    }
}

impl View for SshOverrides {
    type V = SshOverridesView;

    open spec fn view(&self) -> SshOverridesView {
        SshOverridesView {
            user: opt_view(self.user),
            port: self.port,
            identity_file: opt_view(self.identity_file),
            proxy_jump: opt_view(self.proxy_jump),
            proxy_command: opt_view(self.proxy_command),
            sudo: self.sudo,
            timeout_secs: self.timeout_secs,
            connect_timeout_secs: self.connect_timeout_secs,
            extra_ssh_args: opt_views(self.extra_ssh_args),
            allow_insecure: self.allow_insecure,
        }
    }
}

/// A tier that sets nothing.
pub open spec fn unset_view() -> SshOverridesView {
    SshOverridesView {
        user: None,
        port: None,
        identity_file: None,
        proxy_jump: None,
        proxy_command: None,
        sudo: None,
        timeout_secs: None,
        connect_timeout_secs: None,
        extra_ssh_args: None,
        allow_insecure: None,
    }
}

impl Default for SshOverrides {
    fn default() -> (r: Self)
        ensures
            r@ == unset_view(),
    {
        SshOverrides {
            user: None,
            port: None,
            identity_file: None,
            proxy_jump: None,
            proxy_command: None,
            sudo: None,
            timeout_secs: None,
            connect_timeout_secs: None,
            extra_ssh_args: None,
            allow_insecure: None,
        }
    }
}

/// The `[defaults]` section: the shared SSH settings plus the optional
/// default flake root (relative values are relative to the file's
/// directory).
#[derive(Debug, Clone, PartialEq, Eq)]
pub struct TomlDefaults {
    pub flake: Option<String>,
    pub ssh: SshOverrides,
}

/// A `[hosts.<name>]` section: the shared SSH settings as flat keys, the
/// host-specific topology values and the granular group tables.
#[derive(Debug, Clone, PartialEq, Eq)]
pub struct TomlHost {
    pub user: Option<String>,
    pub port: Option<u16>,
    pub identity_file: Option<String>,
    pub proxy_jump: Option<String>,
    pub proxy_command: Option<String>,
    pub sudo: Option<bool>,
    pub timeout_secs: Option<u32>,
    pub connect_timeout_secs: Option<u32>,
    pub extra_ssh_args: Option<Vec<String>>,
    pub allow_insecure: Option<bool>,
    pub target_host: Option<String>,
    pub role: Option<String>,
    pub description: Option<String>,
    pub tags: Option<Vec<String>>,
    pub ssh: Option<SshOverrides>,
    pub build: Option<TomlBuild>,
    pub rollout: Option<TomlRollout>,
    pub health_checks: Option<TomlHealth>,
    pub hooks: Option<TomlHooks>,
}

/// `[hosts.<name>.build]`, one to one with `options.nod.build`.
#[derive(Debug, Clone, PartialEq, Eq)]
pub struct TomlBuild {
    pub build_host: Option<String>,
    pub substituters: Option<Vec<String>>,
    pub trusted_public_keys: Option<Vec<String>>,
    pub eval_flags: Option<Vec<String>>,
    pub show_trace: Option<bool>,
    pub impure: Option<bool>,
}

/// `[hosts.<name>.rollout]`, one to one with `options.nod.rollout`.
#[derive(Debug, Clone, PartialEq, Eq)]
pub struct TomlRollout {
    pub priority: Option<u32>,
    pub action: Option<String>,
    pub auto_rollback: Option<bool>,
    pub reboot: Option<bool>,
    pub magic_rollback: Option<bool>,
    pub magic_rollback_timeout_secs: Option<u32>,
}

/// `[hosts.<name>.health_checks.systemd]`.
#[derive(Debug, Clone, PartialEq, Eq)]
pub struct TomlSystemd {
    pub check_running: Option<bool>,
    pub check_failed_units: Option<bool>,
    pub required_units: Option<Vec<String>>,
}

/// One `[hosts.<name>.health_checks.http_probes]` entry.
#[derive(Debug, Clone, PartialEq, Eq)]
pub struct TomlHttp {
    pub url: Option<String>,
    pub expected_status: Option<u16>,
    pub timeout_secs: Option<u32>,
}

/// One `[hosts.<name>.health_checks.custom_probes]` entry.
#[derive(Debug, Clone, PartialEq, Eq)]
pub struct TomlCustom {
    pub name: Option<String>,
    pub command: Option<String>,
    pub timeout_secs: Option<u32>,
}

/// `[hosts.<name>.health_checks]`, one to one with `options.nod.healthChecks`.
#[derive(Debug, Clone, PartialEq, Eq)]
pub struct TomlHealth {
    pub enable: Option<bool>,
    pub timeout_secs: Option<u32>,
    pub systemd: Option<TomlSystemd>,
    pub tcp_ports: Option<Vec<u16>>,
    pub http_probes: Option<Vec<TomlHttp>>,
    pub custom_probes: Option<Vec<TomlCustom>>,
}

/// `[hosts.<name>.hooks]`, one to one with `options.nod.hooks`.
#[derive(Debug, Clone, PartialEq, Eq)]
pub struct TomlHooks {
    pub pre_switch_hook: Option<String>,
    pub post_switch_hook: Option<String>,
}

/// Parsed shape of `.nod.toml`. `hosts` holds the `[hosts.<name>]` table,
/// one entry per host name.
#[derive(Debug, Clone, PartialEq, Eq)]
pub struct TomlConfig {
    pub defaults: Option<TomlDefaults>,
    pub fleet: Option<SshOverrides>,
    pub hosts: Vec<(String, TomlHost)>,
}

impl Default for TomlConfig {
    fn default() -> (r: Self)
        ensures
            r.defaults is None,
            r.fleet is None,
            r.hosts@.len() == 0,
    {
        TomlConfig { defaults: None, fleet: None, hosts: Vec::new() }
    }
}

// ----- the precedence cascade -------------------------------------------

/// The first present value of `s`, if any.
pub open spec fn first_some<T>(s: Seq<Option<T>>) -> Option<T>
    decreases s.len(),
{
    if s.len() == 0 {
        None
    } else if s[0] is Some {
        s[0]
    } else {
        first_some(s.drop_first())
    }
}

/// `hi` if it is present, else `lo`.
pub open spec fn pick<T>(hi: Option<T>, lo: Option<T>) -> Option<T> {
    if hi is Some {
        hi
    } else {
        lo
    }
}

/// The merged settings of `tiers`, highest tier first: for every option,
/// the value of the highest tier that sets it.
pub open spec fn cascade(tiers: Seq<SshOverridesView>) -> SshOverridesView {
    SshOverridesView {
        user: first_some(tiers.map_values(|t: SshOverridesView| t.user)),
        port: first_some(tiers.map_values(|t: SshOverridesView| t.port)),
        identity_file: first_some(tiers.map_values(|t: SshOverridesView| t.identity_file)),
        proxy_jump: first_some(tiers.map_values(|t: SshOverridesView| t.proxy_jump)),
        proxy_command: first_some(tiers.map_values(|t: SshOverridesView| t.proxy_command)),
        sudo: first_some(tiers.map_values(|t: SshOverridesView| t.sudo)),
        timeout_secs: first_some(tiers.map_values(|t: SshOverridesView| t.timeout_secs)),
        connect_timeout_secs: first_some(tiers.map_values(|t: SshOverridesView| t.connect_timeout_secs)),
        extra_ssh_args: first_some(tiers.map_values(|t: SshOverridesView| t.extra_ssh_args)),
        allow_insecure: first_some(tiers.map_values(|t: SshOverridesView| t.allow_insecure)),
    }
}

/// `src` laid over `base`: every value `src` sets replaces the one below.
pub open spec fn overlaid(base: SshOverridesView, src: SshOverridesView) -> SshOverridesView {
    SshOverridesView {
        user: pick(src.user, base.user),
        port: pick(src.port, base.port),
        identity_file: pick(src.identity_file, base.identity_file),
        proxy_jump: pick(src.proxy_jump, base.proxy_jump),
        proxy_command: pick(src.proxy_command, base.proxy_command),
        sudo: pick(src.sudo, base.sudo),
        timeout_secs: pick(src.timeout_secs, base.timeout_secs),
        connect_timeout_secs: pick(src.connect_timeout_secs, base.connect_timeout_secs),
        extra_ssh_args: pick(src.extra_ssh_args, base.extra_ssh_args),
        allow_insecure: pick(src.allow_insecure, base.allow_insecure),
    }
}

/// The first present value of `a + b` is `a`'s if it has one, else `b`'s.
pub proof fn lemma_first_some_concat<T>(a: Seq<Option<T>>, b: Seq<Option<T>>)
    ensures
        first_some(a + b) == pick(first_some(a), first_some(b)),
    decreases a.len(),
{
    if a.len() > 0 {
        assert((a + b)[0] == a[0]);
        assert((a + b).drop_first() =~= a.drop_first() + b);
        lemma_first_some_concat(a.drop_first(), b);
    } else {
        assert(a + b =~= b);
    }
}

/// Laying the merge of `hi` over the merge of `lo` merges `hi + lo`.
pub proof fn lemma_overlay_cascade(lo: Seq<SshOverridesView>, hi: Seq<SshOverridesView>)
    ensures
        overlaid(cascade(lo), cascade(hi)) == cascade(hi + lo),
{
    let t = hi + lo;
    assert(t.map_values(|x: SshOverridesView| x.user) =~= hi.map_values(|x: SshOverridesView| x.user) + lo.map_values(|x: SshOverridesView| x.user));
    lemma_first_some_concat(hi.map_values(|x: SshOverridesView| x.user), lo.map_values(|x: SshOverridesView| x.user));
    assert(t.map_values(|x: SshOverridesView| x.port) =~= hi.map_values(|x: SshOverridesView| x.port) + lo.map_values(|x: SshOverridesView| x.port));
    lemma_first_some_concat(hi.map_values(|x: SshOverridesView| x.port), lo.map_values(|x: SshOverridesView| x.port));
    assert(t.map_values(|x: SshOverridesView| x.identity_file) =~= hi.map_values(|x: SshOverridesView| x.identity_file) + lo.map_values(|x: SshOverridesView| x.identity_file));
    lemma_first_some_concat(hi.map_values(|x: SshOverridesView| x.identity_file), lo.map_values(|x: SshOverridesView| x.identity_file));
    assert(t.map_values(|x: SshOverridesView| x.proxy_jump) =~= hi.map_values(|x: SshOverridesView| x.proxy_jump) + lo.map_values(|x: SshOverridesView| x.proxy_jump));
    lemma_first_some_concat(hi.map_values(|x: SshOverridesView| x.proxy_jump), lo.map_values(|x: SshOverridesView| x.proxy_jump));
    assert(t.map_values(|x: SshOverridesView| x.proxy_command) =~= hi.map_values(|x: SshOverridesView| x.proxy_command) + lo.map_values(|x: SshOverridesView| x.proxy_command));
    lemma_first_some_concat(hi.map_values(|x: SshOverridesView| x.proxy_command), lo.map_values(|x: SshOverridesView| x.proxy_command));
    assert(t.map_values(|x: SshOverridesView| x.sudo) =~= hi.map_values(|x: SshOverridesView| x.sudo) + lo.map_values(|x: SshOverridesView| x.sudo));
    lemma_first_some_concat(hi.map_values(|x: SshOverridesView| x.sudo), lo.map_values(|x: SshOverridesView| x.sudo));
    assert(t.map_values(|x: SshOverridesView| x.timeout_secs) =~= hi.map_values(|x: SshOverridesView| x.timeout_secs) + lo.map_values(|x: SshOverridesView| x.timeout_secs));
    lemma_first_some_concat(hi.map_values(|x: SshOverridesView| x.timeout_secs), lo.map_values(|x: SshOverridesView| x.timeout_secs));
    assert(t.map_values(|x: SshOverridesView| x.connect_timeout_secs) =~= hi.map_values(|x: SshOverridesView| x.connect_timeout_secs) + lo.map_values(|x: SshOverridesView| x.connect_timeout_secs));
    lemma_first_some_concat(hi.map_values(|x: SshOverridesView| x.connect_timeout_secs), lo.map_values(|x: SshOverridesView| x.connect_timeout_secs));
    assert(t.map_values(|x: SshOverridesView| x.extra_ssh_args) =~= hi.map_values(|x: SshOverridesView| x.extra_ssh_args) + lo.map_values(|x: SshOverridesView| x.extra_ssh_args));
    lemma_first_some_concat(hi.map_values(|x: SshOverridesView| x.extra_ssh_args), lo.map_values(|x: SshOverridesView| x.extra_ssh_args));
    assert(t.map_values(|x: SshOverridesView| x.allow_insecure) =~= hi.map_values(|x: SshOverridesView| x.allow_insecure) + lo.map_values(|x: SshOverridesView| x.allow_insecure));
    lemma_first_some_concat(hi.map_values(|x: SshOverridesView| x.allow_insecure), lo.map_values(|x: SshOverridesView| x.allow_insecure));
}

/// The first present value of a one-element sequence is that element.
proof fn lemma_first_some_single<T>(x: Option<T>)
    ensures
        first_some(seq![x]) == x,
{
    assert(seq![x].drop_first().len() == 0);
    assert(first_some(seq![x].drop_first()) is None);
}

/// The merge of a single tier is that tier.
pub proof fn lemma_cascade_single(v: SshOverridesView)
    ensures
        cascade(seq![v]) == v,
{
    let s = seq![v];
    assert(s.map_values(|x: SshOverridesView| x.user) =~= seq![v.user]);
    lemma_first_some_single(v.user);
    assert(s.map_values(|x: SshOverridesView| x.port) =~= seq![v.port]);
    lemma_first_some_single(v.port);
    assert(s.map_values(|x: SshOverridesView| x.identity_file) =~= seq![v.identity_file]);
    lemma_first_some_single(v.identity_file);
    assert(s.map_values(|x: SshOverridesView| x.proxy_jump) =~= seq![v.proxy_jump]);
    lemma_first_some_single(v.proxy_jump);
    assert(s.map_values(|x: SshOverridesView| x.proxy_command) =~= seq![v.proxy_command]);
    lemma_first_some_single(v.proxy_command);
    assert(s.map_values(|x: SshOverridesView| x.sudo) =~= seq![v.sudo]);
    lemma_first_some_single(v.sudo);
    assert(s.map_values(|x: SshOverridesView| x.timeout_secs) =~= seq![v.timeout_secs]);
    lemma_first_some_single(v.timeout_secs);
    assert(s.map_values(|x: SshOverridesView| x.connect_timeout_secs) =~= seq![v.connect_timeout_secs]);
    lemma_first_some_single(v.connect_timeout_secs);
    assert(s.map_values(|x: SshOverridesView| x.extra_ssh_args) =~= seq![v.extra_ssh_args]);
    lemma_first_some_single(v.extra_ssh_args);
    assert(s.map_values(|x: SshOverridesView| x.allow_insecure) =~= seq![v.allow_insecure]);
    lemma_first_some_single(v.allow_insecure);
}

/// A tier that is laid over a merge lands on top of it.
proof fn lemma_push_tier(t: Seq<SshOverridesView>, x: SshOverridesView)
    ensures
        overlaid(cascade(t), x) == cascade(seq![x] + t),
{
    lemma_overlay_cascade(t, seq![x]);
    lemma_cascade_single(x);
}

// ----- the tiers of one host ----------------------------------------------

/// The flat `[hosts.<name>]` SSH keys of section `h`.
pub open spec fn flat_view(h: TomlHost) -> SshOverridesView {
    SshOverridesView {
        user: opt_view(h.user),
        port: h.port,
        identity_file: opt_view(h.identity_file),
        proxy_jump: opt_view(h.proxy_jump),
        proxy_command: opt_view(h.proxy_command),
        sudo: h.sudo,
        timeout_secs: h.timeout_secs,
        connect_timeout_secs: h.connect_timeout_secs,
        extra_ssh_args: opt_views(h.extra_ssh_args),
        allow_insecure: h.allow_insecure,
    }
}

/// The nested `[hosts.<name>.ssh]` table of section `h`.
pub open spec fn nested_view(h: TomlHost) -> SshOverridesView {
    match h.ssh {
        Some(x) => x@,
        None => unset_view(),
    }
}

/// The section of host `name`: the first `[hosts]` entry of that name.
pub open spec fn section_of(hosts: Seq<(String, TomlHost)>, name: Seq<char>) -> Option<TomlHost>
    decreases hosts.len(),
{
    if hosts.len() == 0 {
        None
    } else if hosts[0].0@ == name {
        Some(hosts[0].1)
    } else {
        section_of(hosts.drop_first(), name)
    }
}

/// The `[defaults]` SSH settings.
pub open spec fn defaults_view(c: TomlConfig) -> SshOverridesView {
    match c.defaults {
        Some(d) => d.ssh@,
        None => unset_view(),
    }
}

/// The `[fleet]` SSH settings.
pub open spec fn fleet_view(c: TomlConfig) -> SshOverridesView {
    match c.fleet {
        Some(f) => f@,
        None => unset_view(),
    }
}

/// The fleet-wide tiers of the file, highest first: `[fleet]`, `[defaults]`.
pub open spec fn file_tiers(c: TomlConfig) -> Seq<SshOverridesView> {
    seq![fleet_view(c), defaults_view(c)]
}

/// The host tiers of the file, highest first: the nested `ssh` table, then
/// the flat keys (none for a host without a section).
pub open spec fn host_tiers(c: TomlConfig, name: Seq<char>) -> Seq<SshOverridesView> {
    match section_of(c.hosts@, name) {
        Some(h) => seq![nested_view(h), flat_view(h)],
        None => Seq::empty(),
    }
}

/// The CLI tier: user, port and identity file.
pub open spec fn cli_view(c: CliOverrides) -> SshOverridesView {
    SshOverridesView {
        user: opt_view(c.user),
        port: c.port,
        identity_file: opt_view(c.identity_file),
        ..unset_view()
    }
}

/// The flake tier (`config.nod.ssh`).
pub open spec fn flake_view(c: SshProfileConfig) -> SshOverridesView {
    SshOverridesView {
        user: opt_view(c.user),
        port: c.port,
        identity_file: opt_view(c.identity_file),
        proxy_jump: opt_view(c.proxy_jump),
        proxy_command: opt_view(c.proxy_command),
        sudo: c.sudo,
        timeout_secs: c.timeout_secs,
        connect_timeout_secs: c.connect_timeout_secs,
        extra_ssh_args: opt_views(c.extra_ssh_args),
        allow_insecure: c.allow_insecure,
    }
}

/// The value of `o`, or `d` when absent.
pub open spec fn or_else<T>(o: Option<T>, d: T) -> T {
    match o {
        Some(x) => x,
        None => d,
    }
}

/// The connection profile of `host` under the merged settings `m`: each set
/// value replaces the host's own (user, port, sudo) or the profile default.
pub open spec fn resolved_profile(host: HostEntity, m: SshOverridesView) -> SshProfileView {
    SshProfileView {
        user: or_else(m.user, host.target_user@),
        port: or_else(m.port, host.target_port),
        identity_file: m.identity_file,
        proxy_jump: m.proxy_jump,
        proxy_command: m.proxy_command,
        timeout_secs: or_else(m.timeout_secs, 30u32),
        connect_timeout_secs: m.connect_timeout_secs,
        extra_ssh_args: or_else(m.extra_ssh_args, Seq::empty()),
        allow_insecure: or_else(m.allow_insecure, false),
        sudo: or_else(m.sudo, host.is_local),
    }
}

/// The view of merged connection overrides.
pub open spec fn conn_view(c: SshConnectionOverrides) -> SshOverridesView {
    SshOverridesView {
        user: opt_view(c.user),
        port: c.port,
        identity_file: opt_view(c.identity_file),
        proxy_jump: opt_view(c.proxy_jump),
        proxy_command: opt_view(c.proxy_command),
        sudo: c.sudo,
        timeout_secs: c.timeout_secs,
        connect_timeout_secs: c.connect_timeout_secs,
        extra_ssh_args: opt_views(c.extra_ssh_args),
        allow_insecure: c.allow_insecure,
    }
}

impl SshOverrides {
    /// Overlays one source's SSH values (later calls win).
    pub fn overlay(&mut self, src: &SshOverrides)
        ensures
            final(self)@ == overlaid(old(self)@, src@),
    {
        if src.user.is_some() {
            self.user = clone_opt(&src.user);
        }
        if src.port.is_some() {
            self.port = src.port;
        }
        if src.identity_file.is_some() {
            self.identity_file = clone_opt(&src.identity_file);
        }
        if src.proxy_jump.is_some() {
            self.proxy_jump = clone_opt(&src.proxy_jump);
        }
        if src.proxy_command.is_some() {
            self.proxy_command = clone_opt(&src.proxy_command);
        }
        if src.sudo.is_some() {
            self.sudo = src.sudo;
        }
        if src.timeout_secs.is_some() {
            self.timeout_secs = src.timeout_secs;
        }
        if src.connect_timeout_secs.is_some() {
            self.connect_timeout_secs = src.connect_timeout_secs;
        }
        if src.extra_ssh_args.is_some() {
            self.extra_ssh_args = clone_opt_strings(&src.extra_ssh_args);
        }
        if src.allow_insecure.is_some() {
            self.allow_insecure = src.allow_insecure;
        }
    }

    /// A copy of these settings.
    pub fn duplicate(&self) -> (r: SshOverrides)
        ensures
            r@ == self@,
    {
        SshOverrides {
            user: clone_opt(&self.user),
            port: self.port,
            identity_file: clone_opt(&self.identity_file),
            proxy_jump: clone_opt(&self.proxy_jump),
            proxy_command: clone_opt(&self.proxy_command),
            sudo: self.sudo,
            timeout_secs: self.timeout_secs,
            connect_timeout_secs: self.connect_timeout_secs,
            extra_ssh_args: clone_opt_strings(&self.extra_ssh_args),
            allow_insecure: self.allow_insecure,
        }
    }
}

/// Overlays the CLI tier (always wins) onto a merge.
fn merge_cli_into(merged: &mut SshOverrides, cli: &CliOverrides)
    ensures
        final(merged)@ == overlaid(old(merged)@, cli_view(*cli)),
{
    if cli.user.is_some() {
        merged.user = clone_opt(&cli.user);
    }
    if cli.port.is_some() {
        merged.port = cli.port;
    }
    if cli.identity_file.is_some() {
        merged.identity_file = clone_opt(&cli.identity_file);
    }
}

/// The flat SSH keys of a host section as one tier.
fn flat_of(h: &TomlHost) -> (r: SshOverrides)
    ensures
        r@ == flat_view(*h),
{
    SshOverrides {
        user: clone_opt(&h.user),
        port: h.port,
        identity_file: clone_opt(&h.identity_file),
        proxy_jump: clone_opt(&h.proxy_jump),
        proxy_command: clone_opt(&h.proxy_command),
        sudo: h.sudo,
        timeout_secs: h.timeout_secs,
        connect_timeout_secs: h.connect_timeout_secs,
        extra_ssh_args: clone_opt_strings(&h.extra_ssh_args),
        allow_insecure: h.allow_insecure,
    }
}

/// Maps the flake SSH surface (`config.nod.ssh`) onto a tier, so that it
/// takes part in the cascade as the lowest SSH tier.
fn to_ssh_overrides(c: &SshProfileConfig) -> (r: SshOverrides)
    ensures
        r@ == flake_view(*c),
{
    SshOverrides {
        user: clone_opt(&c.user),
        port: c.port,
        identity_file: clone_opt(&c.identity_file),
        proxy_jump: clone_opt(&c.proxy_jump),
        proxy_command: clone_opt(&c.proxy_command),
        sudo: c.sudo,
        timeout_secs: c.timeout_secs,
        connect_timeout_secs: c.connect_timeout_secs,
        extra_ssh_args: clone_opt_strings(&c.extra_ssh_args),
        allow_insecure: c.allow_insecure,
    }
}

/// Config store over a parsed `.nod.toml` and the run's CLI overrides.
#[derive(Debug)]
pub struct TomlConfigStore {
    pub cli: CliOverrides,
    pub toml: TomlConfig,
}

/// Every tier of host `host` in this store, highest first: CLI, the host's
/// nested and flat keys, `[fleet]`, `[defaults]`, then the flake metadata.
pub open spec fn resolve_tiers(s: TomlConfigStore, host: HostEntity) -> Seq<SshOverridesView> {
    seq![cli_view(s.cli)] + host_tiers(s.toml, host.name@) + file_tiers(s.toml) + seq![flake_view(host.nod_config.ssh)]
}

/// The tiers of the file and the CLI for host `name`, highest first.
pub open spec fn override_tiers(s: TomlConfigStore, name: Seq<char>) -> Seq<SshOverridesView> {
    seq![cli_view(s.cli)] + host_tiers(s.toml, name) + file_tiers(s.toml)
}

impl TomlConfigStore {
    /// The store for a parsed file, with `cli` as the top tier.
    pub fn new(toml: TomlConfig, cli: CliOverrides) -> (s: TomlConfigStore)
        ensures
            s.toml == toml,
            s.cli == cli,
    {
        TomlConfigStore { cli, toml }
    }

    /// The raw `[defaults].flake` value, if any.
    pub fn default_flake(&self) -> (r: Option<&str>)
        ensures
            match r {
                Some(f) => self.toml.defaults matches Some(d) && d.flake matches Some(x) && f@ == x@,
                None => !(self.toml.defaults matches Some(d) && d.flake is Some),
            },
    {
        match &self.toml.defaults {
            Some(d) => match &d.flake {
                Some(f) => Some(f.as_str()),
                None => None,
            },
            None => None,
        }
    }

    /// The section of host `name`, if the file has one.
    fn section(&self, name: &str) -> (r: Option<&TomlHost>)
        ensures
            match r {
                Some(h) => section_of(self.toml.hosts@, name@) == Some(*h),
                None => section_of(self.toml.hosts@, name@) is None,
            },
    {
        let hosts = &self.toml.hosts;
        let mut i: usize = 0;
        proof {
            assert(hosts@.skip(0) =~= hosts@);
        }
        while i < hosts.len()
            invariant
                i <= hosts@.len(),
                hosts == self.toml.hosts,
                section_of(hosts@, name@) == section_of(hosts@.skip(i as int), name@),
            decreases hosts@.len() - i,
        {
            proof {
                let rest = hosts@.skip(i as int);
                assert(rest[0] == hosts@[i as int]);
                assert(rest.drop_first() =~= hosts@.skip(i as int + 1));
            }
            if str_eq(hosts[i].0.as_str(), name) {
                return Some(&hosts[i].1);
            }
            i += 1;
        }
        None
    }

    /// Merges `[defaults]` and `[fleet]` (no CLI tier).
    fn base_merged(&self) -> (m: SshOverrides)
        ensures
            m@ == cascade(file_tiers(self.toml)),
    {
        let mut merged = SshOverrides::default();
        let ghost d = defaults_view(self.toml);
        let ghost f = fleet_view(self.toml);
        proof {
            lemma_cascade_single(d);
        }
        match &self.toml.defaults {
            Some(x) => {
                merged.overlay(&x.ssh);
            },
            None => {},
        }
        proof {
            lemma_push_tier(seq![d], f);
            assert(seq![f] + seq![d] =~= file_tiers(self.toml));
        }
        match &self.toml.fleet {
            Some(x) => {
                merged.overlay(x);
            },
            None => {},
        }
        merged
    }

    /// Merges every tier but the host entity's own into one override set for
    /// `name`: flat host keys, then the nested `ssh` table, then the CLI.
    fn merged_for(&self, name: &str) -> (m: SshOverrides)
        ensures
            m@ == cascade(override_tiers(*self, name@)),
    {
        let mut merged = self.base_merged();
        let ghost base = file_tiers(self.toml);
        match self.section(name) {
            Some(h) => {
                let flat = flat_of(h);
                merged.overlay(&flat);
                proof {
                    lemma_push_tier(base, flat_view(*h));
                    lemma_push_tier(seq![flat_view(*h)] + base, nested_view(*h));
                    assert(seq![nested_view(*h)] + (seq![flat_view(*h)] + base) =~= host_tiers(self.toml, name@) + base);
                }
                match &h.ssh {
                    Some(x) => {
                        merged.overlay(x);
                    },
                    None => {},
                }
            },
            None => {
                proof {
                    assert(host_tiers(self.toml, name@) + base =~= base);
                }
            },
        }
        let ghost mid = host_tiers(self.toml, name@) + base;
        proof {
            lemma_push_tier(mid, cli_view(self.cli));
            assert(seq![cli_view(self.cli)] + mid =~= override_tiers(*self, name@));
        }
        merge_cli_into(&mut merged, &self.cli);
        merged
    }

    /// The SSH profile of `host`: the flake tier below the file tiers below
    /// the CLI, over the host's own user, port and locality.
    pub fn resolve(&self, host: &HostEntity) -> (p: SshProfile)
        ensures
            p@ == resolved_profile(*host, cascade(resolve_tiers(*self, *host))),
    {
        let mut merged = SshOverrides::default();
        let flake = to_ssh_overrides(&host.nod_config.ssh);
        merged.overlay(&flake);
        let upper = self.merged_for(host.name.as_str());
        merged.overlay(&upper);
        proof {
            let fv = flake_view(host.nod_config.ssh);
            lemma_cascade_single(fv);
            lemma_overlay_cascade(seq![fv], override_tiers(*self, host.name@));
            assert(override_tiers(*self, host.name@) + seq![fv] =~= resolve_tiers(*self, *host));
        }
        profile_from(host, &merged)
    }
}

/// `p` with `args` appended to its extra `ssh(1)` arguments.
fn with_extra_args(p: SshProfile, args: &Vec<String>) -> (r: SshProfile)
    ensures
        r@ == (SshProfileView { extra_ssh_args: p@.extra_ssh_args + views(args@), ..p@ }),
{
    let ghost before = p@;
    let mut profile = p;
    let mut k: usize = 0;
    proof {
        assert(before.extra_ssh_args + views(args@).take(0) =~= before.extra_ssh_args);
        assert(profile@ == (SshProfileView { extra_ssh_args: before.extra_ssh_args + views(args@).take(0), ..before }));
    }
    while k < args.len()
        invariant
            k <= args@.len(),
            profile@ == (SshProfileView { extra_ssh_args: before.extra_ssh_args + views(args@).take(k as int), ..before }),
        decreases args@.len() - k,
    {
        proof {
            assert(before.extra_ssh_args + views(args@).take(k as int + 1) =~= (before.extra_ssh_args + views(
                args@,
            ).take(k as int)).push(args@[k as int]@));
        }
        profile = profile.with_extra_ssh_arg(args[k].as_str());
        k += 1;
    }
    proof {
        assert(views(args@).take(args@.len() as int) =~= views(args@));
    }
    profile
}

/// The profile of `host` with every value that `m` sets applied.
fn profile_from(host: &HostEntity, m: &SshOverrides) -> (p: SshProfile)
    ensures
        p@ == resolved_profile(*host, m@),
{
    let mut profile = SshProfile::for_host(host);
    match &m.user {
        Some(u) => {
            profile = profile.with_user(u.as_str());
        },
        None => {},
    }
    match m.port {
        Some(port) => {
            profile = profile.with_port(port);
        },
        None => {},
    }
    match &m.identity_file {
        Some(x) => {
            profile = profile.with_identity_file(x.as_str());
        },
        None => {},
    }
    match &m.proxy_jump {
        Some(x) => {
            profile = profile.with_proxy_jump(x.as_str());
        },
        None => {},
    }
    match &m.proxy_command {
        Some(x) => {
            profile = profile.with_proxy_command(x.as_str());
        },
        None => {},
    }
    match m.sudo {
        Some(x) => {
            profile = profile.with_sudo(x);
        },
        None => {},
    }
    match m.timeout_secs {
        Some(x) => {
            profile = profile.with_timeout_secs(x);
        },
        None => {},
    }
    match m.connect_timeout_secs {
        Some(x) => {
            profile = profile.with_connect_timeout_secs(x);
        },
        None => {},
    }
    match &m.extra_ssh_args {
        Some(args) => {
            profile = with_extra_args(profile, args);
            proof {
                assert(Seq::<Seq<char>>::empty() + views(args@) =~= views(args@));
            }
        },
        None => {},
    }
    match m.allow_insecure {
        Some(x) => {
            profile = profile.with_allow_insecure(x);
        },
        None => {},
    }
    profile
}

// ----- the host-specific tables -------------------------------------------

/// `b` carries the values of the parsed table `t`.
pub open spec fn build_of(b: BuildConfig, t: TomlBuild) -> bool {
    &&& b.build_host == t.build_host
    &&& opt_views(b.substituters) == opt_views(t.substituters)
    &&& opt_views(b.trusted_public_keys) == opt_views(t.trusted_public_keys)
    &&& opt_views(b.eval_flags) == opt_views(t.eval_flags)
    &&& b.show_trace == t.show_trace
    &&& b.impure == t.impure
}

/// `r` carries the values of the parsed table `t` (and no dependencies).
pub open spec fn rollout_of(r: RolloutConfig, t: TomlRollout) -> bool {
    &&& r.priority == t.priority
    &&& r.action == t.action
    &&& r.auto_rollback == t.auto_rollback
    &&& r.reboot == t.reboot
    &&& r.magic_rollback == t.magic_rollback
    &&& r.magic_rollback_timeout_secs == t.magic_rollback_timeout_secs
    &&& r.depends_on@.len() == 0
}

/// `h` carries the values of the parsed table `t`.
pub open spec fn hooks_of(h: HooksConfig, t: TomlHooks) -> bool {
    h.pre_switch_hook == t.pre_switch_hook && h.post_switch_hook == t.post_switch_hook
}

/// `s` carries the values of the parsed systemd table `t`, or none at all.
pub open spec fn systemd_of(s: SystemdHealthConfig, t: Option<TomlSystemd>) -> bool {
    match t {
        Some(x) => s.check_running == x.check_running && s.check_failed_units == x.check_failed_units
            && opt_views(s.required_units) == opt_views(x.required_units),
        None => s.is_unset(),
    }
}

/// The HTTP probes `p` carry the parsed entries `t`, one for one.
pub open spec fn http_of(p: Seq<HttpProbeConfig>, t: Seq<TomlHttp>) -> bool {
    &&& p.len() == t.len()
    &&& forall|i: int| #![trigger p[i]] 0 <= i < p.len() ==> p[i].url == t[i].url && p[i].expected_status
        == t[i].expected_status && p[i].timeout_secs == t[i].timeout_secs
}

/// The custom probes `p` carry the parsed entries `t`, one for one.
pub open spec fn custom_of(p: Seq<CustomProbeConfig>, t: Seq<TomlCustom>) -> bool {
    &&& p.len() == t.len()
    &&& forall|i: int| #![trigger p[i]] 0 <= i < p.len() ==> p[i].name == t[i].name && p[i].command == t[i].command
        && p[i].timeout_secs == t[i].timeout_secs
}

/// `h` carries the values of the parsed table `t`.
pub open spec fn health_of(h: HealthCheckConfig, t: TomlHealth) -> bool {
    &&& h.enable == t.enable
    &&& h.timeout_secs == t.timeout_secs
    &&& systemd_of(h.systemd, t.systemd)
    &&& match (h.tcp_ports, t.tcp_ports) {
        (Some(a), Some(b)) => a@ == b@,
        (None, None) => true,
        _ => false,
    }
    &&& match (h.http_probes, t.http_probes) {
        (Some(a), Some(b)) => http_of(a@, b@),
        (None, None) => true,
        _ => false,
    }
    &&& match (h.custom_probes, t.custom_probes) {
        (Some(a), Some(b)) => custom_of(a@, b@),
        (None, None) => true,
        _ => false,
    }
}

/// Maps a parsed `[hosts.<name>.build]` table onto the domain `BuildConfig`.
fn to_build_config(b: &TomlBuild) -> (r: BuildConfig)
    ensures
        build_of(r, *b),
{
    BuildConfig {
        build_host: clone_opt(&b.build_host),
        substituters: clone_opt_strings(&b.substituters),
        trusted_public_keys: clone_opt_strings(&b.trusted_public_keys),
        eval_flags: clone_opt_strings(&b.eval_flags),
        show_trace: b.show_trace,
        impure: b.impure,
    }
}

/// Maps a parsed `[hosts.<name>.rollout]` table onto the domain `RolloutConfig`.
fn to_rollout_config(r: &TomlRollout) -> (c: RolloutConfig)
    ensures
        rollout_of(c, *r),
{
    RolloutConfig {
        priority: r.priority,
        action: clone_opt(&r.action),
        auto_rollback: r.auto_rollback,
        reboot: r.reboot,
        magic_rollback: r.magic_rollback,
        magic_rollback_timeout_secs: r.magic_rollback_timeout_secs,
        depends_on: Vec::new(),
    }
}

/// Maps a parsed `[hosts.<name>.hooks]` table onto the domain `HooksConfig`.
fn to_hooks_config(h: &TomlHooks) -> (c: HooksConfig)
    ensures
        hooks_of(c, *h),
{
    HooksConfig { pre_switch_hook: clone_opt(&h.pre_switch_hook), post_switch_hook: clone_opt(&h.post_switch_hook) }
}

/// A copy of a list of ports.
fn clone_ports(v: &Vec<u16>) -> (r: Vec<u16>)
    ensures
        r@ == v@,
{
    let mut r: Vec<u16> = Vec::new();
    let mut i: usize = 0;
    while i < v.len()
        invariant
            i <= v@.len(),
            r@ == v@.subrange(0, i as int),
        decreases v@.len() - i,
    {
        r.push(v[i]);
        i += 1;
    }
    r
}

/// Maps the parsed HTTP probe entries onto the domain type.
fn to_http_probes(t: &Vec<TomlHttp>) -> (r: Vec<HttpProbeConfig>)
    ensures
        http_of(r@, t@),
{
    let mut r: Vec<HttpProbeConfig> = Vec::new();
    let mut i: usize = 0;
    while i < t.len()
        invariant
            i <= t@.len(),
            r@.len() == i,
            forall|k: int| #![trigger r@[k]] 0 <= k < i ==> r@[k].url == t@[k].url && r@[k].expected_status
                == t@[k].expected_status && r@[k].timeout_secs == t@[k].timeout_secs,
        decreases t@.len() - i,
    {
        let p = &t[i];
        r.push(HttpProbeConfig { url: clone_opt(&p.url), expected_status: p.expected_status, timeout_secs: p.timeout_secs });
        i += 1;
    }
    r
}

/// Maps the parsed custom probe entries onto the domain type.
fn to_custom_probes(t: &Vec<TomlCustom>) -> (r: Vec<CustomProbeConfig>)
    ensures
        custom_of(r@, t@),
{
    let mut r: Vec<CustomProbeConfig> = Vec::new();
    let mut i: usize = 0;
    while i < t.len()
        invariant
            i <= t@.len(),
            r@.len() == i,
            forall|k: int| #![trigger r@[k]] 0 <= k < i ==> r@[k].name == t@[k].name && r@[k].command == t@[k].command
                && r@[k].timeout_secs == t@[k].timeout_secs,
        decreases t@.len() - i,
    {
        let p = &t[i];
        r.push(CustomProbeConfig { name: clone_opt(&p.name), command: clone_opt(&p.command), timeout_secs: p.timeout_secs });
        i += 1;
    }
    r
}

/// Maps a parsed `[hosts.<name>.health_checks]` table onto the domain
/// `HealthCheckConfig`.
fn to_health_config(h: &TomlHealth) -> (c: HealthCheckConfig)
    ensures
        health_of(c, *h),
{
    let systemd = match &h.systemd {
        Some(s) => SystemdHealthConfig {
            check_running: s.check_running,
            check_failed_units: s.check_failed_units,
            required_units: clone_opt_strings(&s.required_units),
        },
        None => SystemdHealthConfig::default(),
    };
    let tcp_ports = match &h.tcp_ports {
        Some(v) => Some(clone_ports(v)),
        None => None,
    };
    let http_probes = match &h.http_probes {
        Some(v) => Some(to_http_probes(v)),
        None => None,
    };
    let custom_probes = match &h.custom_probes {
        Some(v) => Some(to_custom_probes(v)),
        None => None,
    };
    HealthCheckConfig { enable: h.enable, timeout_secs: h.timeout_secs, systemd, tcp_ports, http_probes, custom_probes }
}

/// `o` is present exactly when `t` is, related by `rel`.
pub open spec fn maps_opt<A, B>(o: Option<A>, t: Option<B>, rel: spec_fn(A, B) -> bool) -> bool {
    match (o, t) {
        (Some(a), Some(b)) => rel(a, b),
        (None, None) => true,
        _ => false,
    }
}

/// The connection values of merged settings.
fn to_connection(m: SshOverrides) -> (c: SshConnectionOverrides)
    ensures
        conn_view(c) == m@,
{
    SshConnectionOverrides {
        user: m.user,
        port: m.port,
        identity_file: m.identity_file,
        proxy_jump: m.proxy_jump,
        proxy_command: m.proxy_command,
        sudo: m.sudo,
        timeout_secs: m.timeout_secs,
        connect_timeout_secs: m.connect_timeout_secs,
        extra_ssh_args: m.extra_ssh_args,
        allow_insecure: m.allow_insecure,
    }
}

impl TomlConfigStore {
    /// The merged overrides of host `name` (file tiers and CLI) and the
    /// host-specific values of its section.
    pub fn host_overrides(&self, name: &str) -> (o: HostOverrides)
        ensures
            conn_view(o.ssh) == cascade(override_tiers(*self, name@)),
            ({
                let sec = section_of(self.toml.hosts@, name@);
                &&& o.target_host == (match sec { Some(h) => h.target_host, None => None })
                &&& o.description == (match sec { Some(h) => h.description, None => None })
                &&& o.role == (match sec { Some(h) => h.role, None => None })
                &&& opt_views(o.tags) == (match sec { Some(h) => opt_views(h.tags), None => None })
                &&& maps_opt(o.build, match sec { Some(h) => h.build, None => None }, |b: BuildConfig, t: TomlBuild| build_of(b, t))
                &&& maps_opt(o.rollout, match sec { Some(h) => h.rollout, None => None }, |r: RolloutConfig, t: TomlRollout| rollout_of(r, t))
                &&& maps_opt(o.health_checks, match sec { Some(h) => h.health_checks, None => None }, |c: HealthCheckConfig, t: TomlHealth| health_of(c, t))
                &&& maps_opt(o.hooks, match sec { Some(h) => h.hooks, None => None }, |c: HooksConfig, t: TomlHooks| hooks_of(c, t))
            }),
    {
        let merged = self.merged_for(name);
        let ssh = to_connection(merged);
        match self.section(name) {
            Some(h) => {
                let build = match &h.build {
                    Some(b) => Some(to_build_config(b)),
                    None => None,
                };
                let rollout = match &h.rollout {
                    Some(r) => Some(to_rollout_config(r)),
                    None => None,
                };
                let health_checks = match &h.health_checks {
                    Some(c) => Some(to_health_config(c)),
                    None => None,
                };
                let hooks = match &h.hooks {
                    Some(c) => Some(to_hooks_config(c)),
                    None => None,
                };
                HostOverrides {
                    ssh,
                    target_host: clone_opt(&h.target_host),
                    description: clone_opt(&h.description),
                    role: clone_opt(&h.role),
                    tags: clone_opt_strings(&h.tags),
                    build,
                    rollout,
                    health_checks,
                    hooks,
                }
            },
            None => HostOverrides {
                ssh,
                target_host: None,
                description: None,
                role: None,
                tags: None,
                build: None,
                rollout: None,
                health_checks: None,
                hooks: None,
            },
        }
    }

    /// The fleet-wide defaults: `[defaults]` under `[fleet]`, without the
    /// per-run CLI tier, and the `[defaults].flake` root.
    pub fn fleet_defaults(&self) -> (d: FleetDefaults)
        ensures
            conn_view(d.ssh) == cascade(file_tiers(self.toml)),
            d.flake == (match self.toml.defaults { Some(x) => x.flake, None => None }),
            d.description is None,
            d.build is None,
            d.rollout is None,
            d.health_checks is None,
            d.hooks is None,
    {
        let merged = self.base_merged();
        let flake = match &self.toml.defaults {
            Some(x) => clone_opt(&x.flake),
            None => None,
        };
        FleetDefaults {
            ssh: to_connection(merged),
            flake,
            description: None,
            build: None,
            rollout: None,
            health_checks: None,
            hooks: None,
        }
    }

    /// `host` with the resolved user and port written onto it; everything
    /// else, its locality included, is kept.
    pub fn apply_to(&self, host: HostEntity) -> (h: HostEntity)
        ensures
            h.target_user@ == resolved_profile(host, cascade(resolve_tiers(*self, host))).user,
            h.target_port == resolved_profile(host, cascade(resolve_tiers(*self, host))).port,
            h == (HostEntity { target_user: h.target_user, target_port: h.target_port, ..host }),
    {
        let profile = self.resolve(&host);
        let mut h = host;
        h.target_user = profile.user().to_owned();
        h.target_port = profile.port();
        h
    }
}

// ----- the flake root of a run --------------------------------------------

/// What `Path::parent` returns for a path: it depends on the path's
/// components, as std's documentation describes them.
pub uninterp spec fn path_parent(p: Seq<char>) -> Option<Seq<char>>;

/// The directory part of a path (`std::path::Path::parent`): the path
/// without its final component. The documentation promises `None` for the
/// empty path and for a path that ends in the root (such as `/`); what the
/// parent is otherwise is given by the name [`path_parent`] alone.
#[verifier::external_body]
fn parent_dir(p: &str) -> (r: Option<String>)
    ensures
        opt_view(r) == path_parent(p@),
        (p@.len() == 0 || p@ == "/"@) ==> r is None,
{
    match std::path::Path::new(p).parent() {
        Some(d) => Some(d.to_string_lossy().into_owned()),
        None => None,
    }
}

/// A raw `[defaults].flake` value resolved against the directory of the
/// config file at `config`: unchanged when the file has no parent
/// directory, else joined onto it.
pub open spec fn default_flake_resolved(config: Seq<char>, flake: Seq<char>) -> Seq<char> {
    match path_parent(config) {
        Some(dir) => path_pushed(dir, flake),
        None => flake,
    }
}

/// Resolves a raw `[defaults].flake` value against the directory containing
/// its config file. A config file anchored directly at a filesystem root has
/// no parent directory; the raw value is then returned unchanged.
pub fn resolve_default_flake(config: &str, flake: &str) -> (r: String)
    ensures
        r@ == default_flake_resolved(config@, flake@),
{
    match parent_dir(config) {
        Some(dir) => push_path(dir.as_str(), flake),
        None => flake.to_owned(),
    }
}

/// The `--flake` value `cli_flake` leaves the choice to the config file: it
/// is the `.` marker, which the flags default to.
pub fn defers_to_config(cli_flake: &str) -> (r: bool)
    ensures
        r == (cli_flake@ == "."@),
{
    str_eq(cli_flake, ".")
}

/// The flake root of a run: an explicit `--flake` wins; else the
/// `[defaults].flake` of the config file found at `found` (its path and
/// parsed content), resolved against that file's directory; else `.`.
pub open spec fn chosen_flake(cli_flake: Seq<char>, found: Option<(Seq<char>, TomlConfig)>) -> Seq<char> {
    if cli_flake != "."@ {
        cli_flake
    } else {
        match found {
            Some((path, cfg)) => match cfg.defaults {
                Some(d) => match d.flake {
                    Some(f) => default_flake_resolved(path, f@),
                    None => "."@,
                },
                None => "."@,
            },
            None => "."@,
        }
    }
}

/// Exec form of [`chosen_flake`].
pub fn choose_flake(cli_flake: &str, found: Option<(&str, &TomlConfig)>) -> (r: String)
    ensures
        r@ == chosen_flake(
            cli_flake@,
            match found {
                Some((p, c)) => Some((p@, *c)),
                None => None,
            },
        ),
{
    if !defers_to_config(cli_flake) {
        return cli_flake.to_owned();
    }
    match found {
        Some((path, cfg)) => match &cfg.defaults {
            Some(d) => match &d.flake {
                Some(f) => resolve_default_flake(path, f.as_str()),
                None => String::from_str("."),
            },
            None => String::from_str("."),
        },
        None => String::from_str("."),
    }
}

// ----- laws of the cascade --------------------------------------------------

/// Of a list of tiers, the highest one that sets a value decides it.
pub proof fn lemma_highest_tier_wins<T>(s: Seq<Option<T>>, i: int)
    requires
        0 <= i < s.len(),
        s[i] is Some,
        forall|j: int| 0 <= j < i ==> s[j] is None,
    ensures
        first_some(s) == s[i],
    decreases i,
{
    if i > 0 {
        assert forall|j: int| 0 <= j < i - 1 implies s.drop_first()[j] is None by {
            assert(s.drop_first()[j] == s[j + 1]);
        }
        lemma_highest_tier_wins(s.drop_first(), i - 1);
    }
}

/// A user, port or identity file given on the command line is the one the
/// resolved profile carries, whatever the file and the flake say.
pub proof fn lemma_cli_tier_wins(s: TomlConfigStore, host: HostEntity)
    ensures
        s.cli.user matches Some(u) ==> resolved_profile(host, cascade(resolve_tiers(s, host))).user == u@,
        s.cli.port matches Some(p) ==> resolved_profile(host, cascade(resolve_tiers(s, host))).port == p,
        s.cli.identity_file matches Some(f) ==> resolved_profile(host, cascade(resolve_tiers(s, host))).identity_file
            == Some(f@),
{
    let t = resolve_tiers(s, host);
    assert(t[0] == cli_view(s.cli));
    assert(t.map_values(|x: SshOverridesView| x.user)[0] == opt_view(s.cli.user));
    assert(t.map_values(|x: SshOverridesView| x.port)[0] == s.cli.port);
    assert(t.map_values(|x: SshOverridesView| x.identity_file)[0] == opt_view(s.cli.identity_file));
}

/// Without a CLI user, a user set in the host's section (flat or in its
/// `ssh` table) beats `[fleet]`, `[defaults]` and the flake; the nested
/// table beats the flat key.
pub proof fn lemma_host_section_wins(s: TomlConfigStore, host: HostEntity, h: TomlHost)
    requires
        s.cli.user is None,
        section_of(s.toml.hosts@, host.name@) == Some(h),
    ensures
        nested_view(h).user matches Some(u) ==> resolved_profile(host, cascade(resolve_tiers(s, host))).user == u,
        nested_view(h).user is None && h.user is Some ==> resolved_profile(host, cascade(resolve_tiers(s, host))).user
            == h.user.unwrap()@,
{
    let t = resolve_tiers(s, host);
    let users = t.map_values(|x: SshOverridesView| x.user);
    assert(t[0] == cli_view(s.cli));
    assert(t[1] == nested_view(h));
    assert(t[2] == flat_view(h));
    assert(users[0] is None);
    if nested_view(h).user is Some {
        lemma_highest_tier_wins(users, 1);
    } else if h.user is Some {
        assert(users[1] is None);
        lemma_highest_tier_wins(users, 2);
    }
}

/// The file and CLI tiers beat the flake metadata; where they set nothing,
/// the flake's value is the one used.
pub proof fn lemma_file_over_flake(s: TomlConfigStore, host: HostEntity)
    ensures
        cascade(resolve_tiers(s, host)) == overlaid(flake_view(host.nod_config.ssh), cascade(override_tiers(s, host.name@))),
{
    let fv = flake_view(host.nod_config.ssh);
    lemma_cascade_single(fv);
    lemma_overlay_cascade(seq![fv], override_tiers(s, host.name@));
    assert(override_tiers(s, host.name@) + seq![fv] =~= resolve_tiers(s, host));
}

/// With no CLI overrides, no config file and no flake SSH metadata, a host
/// resolves to its own compiled-in profile.
pub proof fn lemma_no_overrides_keep_host_defaults(s: TomlConfigStore, host: HostEntity)
    requires
        s.cli.user is None && s.cli.port is None && s.cli.identity_file is None,
        s.toml.defaults is None,
        s.toml.fleet is None,
        s.toml.hosts@.len() == 0,
        host.nod_config.ssh.is_unset(),
    ensures
        resolved_profile(host, cascade(resolve_tiers(s, host))) == SshProfile::host_profile(
            host.target_user@,
            host.target_port,
            host.is_local,
        ),
{
    let t = resolve_tiers(s, host);
    assert(host_tiers(s.toml, host.name@) =~= Seq::<SshOverridesView>::empty());
    assert(t =~= seq![unset_view(), unset_view(), unset_view(), unset_view()]);
    assert(cascade(seq![unset_view()]) == unset_view()) by {
        lemma_cascade_single(unset_view());
    }
    lemma_overlay_cascade(seq![unset_view()], seq![unset_view()]);
    assert(seq![unset_view()] + seq![unset_view()] =~= seq![unset_view(), unset_view()]);
    lemma_overlay_cascade(seq![unset_view(), unset_view()], seq![unset_view(), unset_view()]);
    assert(seq![unset_view(), unset_view()] + seq![unset_view(), unset_view()] =~= t);
}

} // verus!
