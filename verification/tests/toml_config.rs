use nod::config::CliOverrides;
use nod::host::HostEntity;
use nod::toml_config::{
    choose_flake, defers_to_config, resolve_default_flake, SshOverrides, TomlConfig, TomlConfigStore, TomlDefaults,
    TomlHost,
};

fn section() -> TomlHost {
    TomlHost {
        user: None,
        port: None,
        identity_file: None,
        proxy_jump: None,
        proxy_command: None,
        sudo: None,
        timeout_secs: None,
        connect_timeout_secs: None,
        extra_ssh_args: None,
        allow_insecure: None,
        target_host: None,
        role: None,
        description: None,
        tags: None,
        ssh: None,
        build: None,
        rollout: None,
        health_checks: None,
        hooks: None,
    }
}

fn user(u: &str) -> SshOverrides {
    let mut s = SshOverrides::default();
    s.user = Some(u.to_string());
    s
}

fn defaults(ssh: SshOverrides) -> Option<TomlDefaults> {
    Some(TomlDefaults { flake: None, ssh })
}

fn store(toml: TomlConfig, cli: CliOverrides) -> TomlConfigStore {
    TomlConfigStore::new(toml, cli)
}

fn host(name: &str) -> HostEntity {
    HostEntity::new(name, "10.0.0.8", false)
}

#[test]
fn root_anchored_config_resolves_default_flake_without_parent() {
    assert_eq!(resolve_default_flake("/", "flakes/vm"), "flakes/vm");
    assert_eq!(resolve_default_flake("/etc/nixos/.nod.toml", "flakes/vm"), "/etc/nixos/flakes/vm");
}

#[test]
fn missing_config_falls_back_to_compiled_defaults() {
    let s = store(TomlConfig::default(), CliOverrides::default());
    let profile = s.resolve(&host("atlas"));
    assert_eq!(profile.user(), "root");
    assert_eq!(profile.port(), 22);
    assert_eq!(profile.identity_file(), None);
    assert_eq!(profile.proxy_jump(), None);
    assert!(!profile.sudo());
}

#[test]
fn defaults_section_underpins_every_host() {
    let mut ssh = user("deploy");
    ssh.port = Some(2200);
    let s = store(TomlConfig { defaults: defaults(ssh), fleet: None, hosts: vec![] }, CliOverrides::default());
    let profile = s.resolve(&host("atlas"));
    assert_eq!(profile.user(), "deploy");
    assert_eq!(profile.port(), 2200);
}

#[test]
fn fleet_section_overrides_defaults() {
    let cfg = TomlConfig { defaults: defaults(user("deploy")), fleet: Some(user("fleet")), hosts: vec![] };
    let profile = store(cfg, CliOverrides::default()).resolve(&host("atlas"));
    assert_eq!(profile.user(), "fleet");
}

#[test]
fn host_section_overrides_fleet_and_defaults() {
    let mut fleet = SshOverrides::default();
    fleet.port = Some(2200);
    let mut atlas = section();
    atlas.user = Some("philipp".to_string());
    atlas.port = Some(2222);
    let cfg = TomlConfig { defaults: defaults(user("deploy")), fleet: Some(fleet), hosts: vec![("atlas".to_string(), atlas)] };
    let s = store(cfg, CliOverrides::default());

    let a = s.resolve(&host("atlas"));
    assert_eq!(a.user(), "philipp");
    assert_eq!(a.port(), 2222);

    let o = s.resolve(&host("orbit"));
    assert_eq!(o.user(), "deploy");
    assert_eq!(o.port(), 2200);
}

#[test]
fn cli_overrides_beat_host_section() {
    let mut atlas = section();
    atlas.user = Some("toml".to_string());
    let cfg = TomlConfig { defaults: None, fleet: None, hosts: vec![("atlas".to_string(), atlas)] };
    let cli = CliOverrides { user: Some("cli-user".to_string()), port: None, identity_file: None };
    assert_eq!(store(cfg, cli).resolve(&host("atlas")).user(), "cli-user");
}

#[test]
fn cli_port_overrides_toml_section() {
    let mut atlas = section();
    atlas.port = Some(2222);
    let cfg = TomlConfig { defaults: None, fleet: None, hosts: vec![("atlas".to_string(), atlas)] };
    let cli = CliOverrides { user: None, port: Some(2200), identity_file: None };
    let profile = store(cfg, cli).resolve(&host("atlas"));
    assert_eq!(profile.user(), "root");
    assert_eq!(profile.port(), 2200);
}

#[test]
fn identity_proxy_and_sudo_flow_through_tiers() {
    let mut fleet = SshOverrides::default();
    fleet.identity_file = Some("/var/lib/nod/id".to_string());
    fleet.proxy_jump = Some("bastion.example.org".to_string());
    let mut atlas = section();
    atlas.sudo = Some(true);
    let cfg = TomlConfig { defaults: None, fleet: Some(fleet), hosts: vec![("atlas".to_string(), atlas)] };
    let s = store(cfg, CliOverrides::default());

    let a = s.resolve(&host("atlas"));
    assert_eq!(a.identity_file(), Some(&"/var/lib/nod/id".to_string()));
    assert_eq!(a.proxy_jump(), Some("bastion.example.org"));
    assert!(a.sudo());

    let o = s.resolve(&host("orbit"));
    assert_eq!(o.identity_file(), Some(&"/var/lib/nod/id".to_string()));
}

#[test]
fn host_overrides_exposes_merged_ssh_and_topology_values() {
    let mut atlas = section();
    atlas.user = Some("philipp".to_string());
    atlas.role = Some("server".to_string());
    atlas.tags = Some(vec!["prod".to_string(), "web".to_string()]);
    let cfg = TomlConfig { defaults: None, fleet: Some(user("deploy")), hosts: vec![("atlas".to_string(), atlas)] };
    let overrides = store(cfg, CliOverrides::default()).host_overrides("atlas");
    assert_eq!(overrides.ssh.user, Some("philipp".to_string()));
    assert_eq!(overrides.role, Some("server".to_string()));
    assert_eq!(overrides.tags, Some(vec!["prod".to_string(), "web".to_string()]));
}

#[test]
fn fleet_defaults_omit_cli_overrides() {
    let mut fleet = user("fleet");
    fleet.port = Some(2222);
    let cfg = TomlConfig { defaults: None, fleet: Some(fleet), hosts: vec![] };
    let cli = CliOverrides { user: Some("cli".to_string()), port: Some(99), identity_file: None };
    let d = store(cfg, cli).fleet_defaults();
    assert_eq!(d.ssh.user, Some("fleet".to_string()));
    assert_eq!(d.ssh.port, Some(2222));
}

#[test]
fn apply_to_materializes_user_and_port_but_keeps_locality() {
    let mut atlas = section();
    atlas.user = Some("philipp".to_string());
    atlas.port = Some(2222);
    let cfg = TomlConfig { defaults: None, fleet: None, hosts: vec![("atlas".to_string(), atlas)] };
    let m = store(cfg, CliOverrides::default()).apply_to(host("atlas"));
    assert_eq!(m.target_user, "philipp");
    assert_eq!(m.target_port, 2222);
    assert!(!m.is_local);
}

fn host_with_flake_ssh(name: &str) -> HostEntity {
    let mut h = host(name);
    h.nod_config.ssh.identity_file = Some("/flake/id_rsa".to_string());
    h.nod_config.ssh.proxy_jump = Some("jump.example".to_string());
    h.nod_config.ssh.sudo = Some(true);
    h
}

#[test]
fn flake_ssh_identity_resolves_without_lower_override() {
    let p = store(TomlConfig::default(), CliOverrides::default()).resolve(&host_with_flake_ssh("atlas"));
    assert_eq!(p.identity_file(), Some(&"/flake/id_rsa".to_string()));
    assert_eq!(p.proxy_jump(), Some("jump.example"));
    assert!(p.sudo());
}

fn nested_identity(path: &str) -> TomlConfig {
    let mut atlas = section();
    let mut ssh = SshOverrides::default();
    ssh.identity_file = Some(path.to_string());
    atlas.ssh = Some(ssh);
    TomlConfig { defaults: None, fleet: None, hosts: vec![("atlas".to_string(), atlas)] }
}

#[test]
fn toml_overrides_flake_ssh_identity() {
    let p = store(nested_identity("/toml/id_rsa"), CliOverrides::default()).resolve(&host_with_flake_ssh("atlas"));
    assert_eq!(p.identity_file(), Some(&"/toml/id_rsa".to_string()));
    assert_eq!(p.proxy_jump(), Some("jump.example"));
}

#[test]
fn cli_overrides_flake_and_toml_ssh_identity() {
    let cli = CliOverrides { user: None, port: None, identity_file: Some("/cli/id_rsa".to_string()) };
    let p = store(nested_identity("/toml/id_rsa"), cli).resolve(&host_with_flake_ssh("atlas"));
    assert_eq!(p.identity_file(), Some(&"/cli/id_rsa".to_string()));
    assert_eq!(p.proxy_jump(), Some("jump.example"));
}

#[test]
fn nested_ssh_table_beats_flat_host_keys() {
    let mut atlas = section();
    atlas.user = Some("flat".to_string());
    atlas.ssh = Some(user("nested"));
    let cfg = TomlConfig { defaults: None, fleet: None, hosts: vec![("atlas".to_string(), atlas)] };
    assert_eq!(store(cfg, CliOverrides::default()).resolve(&host("atlas")).user(), "nested");
}

#[test]
fn extra_args_and_timeouts_come_from_the_merge() {
    let mut fleet = SshOverrides::default();
    fleet.extra_ssh_args = Some(vec!["-v".to_string()]);
    fleet.timeout_secs = Some(45);
    fleet.allow_insecure = Some(true);
    let cfg = TomlConfig { defaults: None, fleet: Some(fleet), hosts: vec![] };
    let p = store(cfg, CliOverrides::default()).resolve(&host("atlas"));
    assert_eq!(p.extra_ssh_args(), &vec!["-v".to_string()]);
    assert_eq!(p.timeout_secs(), 45);
    assert!(p.allow_insecure());
}

#[test]
fn defaults_flake_parses_and_exposes_accessor_and_fleet_defaults() {
    let cfg = TomlConfig {
        defaults: Some(TomlDefaults { flake: Some("/etc/nixos".to_string()), ssh: user("deploy") }),
        fleet: None,
        hosts: vec![],
    };
    let s = store(cfg, CliOverrides::default());
    assert_eq!(s.default_flake(), Some("/etc/nixos"));
    assert_eq!(s.fleet_defaults().flake, Some("/etc/nixos".to_string()));
    assert_eq!(s.resolve(&host("atlas")).user(), "deploy");
}

fn with_flake(flake: &str) -> TomlConfig {
    TomlConfig {
        defaults: Some(TomlDefaults { flake: Some(flake.to_string()), ssh: SshOverrides::default() }),
        fleet: None,
        hosts: vec![],
    }
}

#[test]
fn effective_flake_prefers_cli_then_toml_then_default() {
    let cfg = with_flake("/srv/nixos/flakes");
    assert_eq!(choose_flake("nix/flakes", Some(("/work/.nod.toml", &cfg))), "nix/flakes");
    assert_eq!(choose_flake(".", Some(("/work/.nod.toml", &cfg))), "/srv/nixos/flakes");
    assert_eq!(choose_flake(".", None), ".");
}

#[test]
fn effective_flakes_relative_default_flake_resolves_to_config_location() {
    let cfg = with_flake("machines/web-01");
    assert_eq!(choose_flake(".", Some(("/work/.nod.toml", &cfg))), "/work/machines/web-01");
}

#[test]
fn effective_flake_ignores_toml_without_flake_key() {
    let cfg = TomlConfig { defaults: defaults(user("deploy")), fleet: None, hosts: vec![] };
    assert_eq!(choose_flake(".", Some(("/work/.nod.toml", &cfg))), ".");
}

#[test]
fn explicit_dot_flake_does_not_override_defaults_flake() {
    let cfg = with_flake("/srv/nixos");
    assert!(defers_to_config("."));
    assert!(!defers_to_config("./"));
    assert_eq!(choose_flake(".", Some(("/work/.nod.toml", &cfg))), "/srv/nixos");
}

#[test]
fn absent_flake_ssh_is_a_noop() {
    let profile = store(TomlConfig::default(), CliOverrides::default()).resolve(&host("atlas"));
    assert_eq!(profile.user(), "root");
    assert_eq!(profile.port(), 22);
    assert_eq!(profile.identity_file(), None);
    assert_eq!(profile.proxy_jump(), None);
    assert!(!profile.sudo());
}
