use nod::deploy::{build_remote_command, shell_quote, LocalDeployer, SshCliDeployer, TokioSshDeployer};
use nod::errors::NodError;
use nod::generation::parse_system_profiles_stat_output;
use nod::host::{HostEntity, SshProfile};
use nod::process::{CommandOutput, SpawnError};

#[test]
fn unknown_action_is_rejected_as_a_config_error() {
    let err = build_remote_command("/nix/store/abc-system/bin/switch-to-configuration", "evil; rm -rf /").unwrap_err();
    assert!(matches!(err, NodError::Config { .. }));
}

#[test]
fn path_with_spaces_is_quoted_in_remote_command() {
    let cmd = build_remote_command("/nix/store/my system/bin/switch-to-configuration", "switch").unwrap();
    assert_eq!(cmd, "'/nix/store/my system/bin/switch-to-configuration' switch");
}

#[test]
fn path_with_single_quote_is_escaped() {
    let cmd = build_remote_command("/nix/store/it's here/system", "switch").unwrap();
    assert!(cmd.starts_with("'"));
    assert!(cmd.contains("'\\''"));
}

#[test]
fn all_known_deployment_actions_are_accepted() {
    for action in ["switch", "boot", "test", "dry-run", "build"] {
        assert!(build_remote_command("/nix/store/abc-system", action).is_ok(), "action={}", action);
    }
}

const SAMPLE_STAT_OUTPUT: &str = "\
/nix/var/nix/profiles/system 1787560497 '/nix/var/nix/profiles/system' -> 'system-120-link'
/nix/var/nix/profiles/system-119-link 1787559159 '/nix/var/nix/profiles/system-119-link' -> '/nix/store/r98640x8xsmgga8y8bc39xw4dk5lxg8z-nixos-system-yorke'
/nix/var/nix/profiles/system-120-link 1787560497 '/nix/var/nix/profiles/system-120-link' -> '/nix/store/8rc43cvqzvg01jj10lv2x0h6kwhly52y-nixos-system-yorke'";

#[test]
fn parse_system_profiles_stat_output_extracts_generations() {
    let gens = parse_system_profiles_stat_output(SAMPLE_STAT_OUTPUT);
    assert_eq!(gens.len(), 2);

    assert_eq!(gens[0].generation, 120);
    assert!(gens[0].is_current);
    assert_eq!(gens[0].created_at, Some(1787560497));
    assert_eq!(gens[0].closure_path, "/nix/store/8rc43cvqzvg01jj10lv2x0h6kwhly52y-nixos-system-yorke");

    assert_eq!(gens[1].generation, 119);
    assert!(!gens[1].is_current);
}

#[test]
fn shell_quote_wraps_and_escapes_single_quotes() {
    assert_eq!(shell_quote("plain"), "'plain'");
    assert_eq!(shell_quote("it's"), "'it'\\''s'");
}

#[test]
fn local_activation_runs_switch_under_sudo() {
    let inv = LocalDeployer::activation_invocation("/nix/store/abc", "boot");
    assert_eq!(inv.program, "sudo");
    assert_eq!(inv.args, ["/nix/store/abc/bin/switch-to-configuration", "boot"]);
}

#[test]
fn local_activation_failures_are_deployment_errors() {
    let spawn: Result<CommandOutput, SpawnError> = Err(SpawnError { not_found: true, message: "x".to_string() });
    assert!(matches!(LocalDeployer::read_activation(&spawn), Err(NodError::Deployment { .. })));
    let failed = Ok(CommandOutput { success: false, code: Some(1), stdout: String::new(), stderr: String::new() });
    assert!(matches!(LocalDeployer::read_activation(&failed), Err(NodError::Deployment { .. })));
    let ok = Ok(CommandOutput { success: true, code: Some(0), stdout: String::new(), stderr: String::new() });
    assert!(LocalDeployer::read_activation(&ok).is_ok());
}

#[test]
fn remote_deploy_copies_then_activates_over_ssh() {
    let host = HostEntity::new("atlas", "10.0.0.8", false);
    let profile = SshProfile::new("deploy", 2222);
    let plan = SshCliDeployer::deploy_plan(&host, &profile, "/nix/store/abc", "switch").unwrap();
    assert_eq!(plan.copy.program, "nix");
    assert_eq!(plan.copy.args, ["copy", "--to", "ssh://deploy@10.0.0.8:2222", "/nix/store/abc"]);
    assert_eq!(plan.copy.env[0].0, "NIX_SSHOPTS");
    assert_eq!(plan.activate.program, "ssh");
    assert_eq!(plan.activate.args.last().unwrap(), "'/nix/store/abc/bin/switch-to-configuration' switch");
    assert!(SshCliDeployer::deploy_plan(&host, &profile, "/nix/store/abc", "reboot-now").is_err());
}

#[test]
fn unreachable_host_is_a_health_check_error() {
    assert_eq!(SshCliDeployer::read_reachability("atlas", true), Ok(true));
    let err = SshCliDeployer::read_reachability("atlas", false).unwrap_err();
    assert!(matches!(err, NodError::HealthCheck { .. }));
    assert!(err.message().contains("atlas"));
}

#[test]
fn reachability_probe_uses_flake_port_and_timeout() {
    let mut host = HostEntity::new("atlas", "10.0.0.8", false);
    let p = SshCliDeployer::reachability_probe(&host);
    assert_eq!((p.host.as_str(), p.port, p.timeout_secs), ("10.0.0.8", 22, 3));
    host.nod_config.ssh.port = Some(2200);
    host.nod_config.ssh.connect_timeout_secs = Some(9);
    let p = SshCliDeployer::reachability_probe(&host);
    assert_eq!((p.port, p.timeout_secs), (2200, 9));
}

#[test]
fn plain_activation_copies_then_switches_remote_hosts() {
    let remote = HostEntity::new("atlas", "10.0.0.8", false);
    let runs = TokioSshDeployer::activation_runs(&remote, "/nix/store/abc");
    assert_eq!(runs.len(), 2);
    assert_eq!(runs[0].args, ["copy", "--to", "ssh://root@10.0.0.8", "/nix/store/abc"]);
    assert_eq!(runs[1].args, ["root@10.0.0.8", "/nix/store/abc/bin/switch-to-configuration switch"]);
    let failed = Ok(CommandOutput { success: false, code: Some(1), stdout: String::new(), stderr: String::new() });
    assert_eq!(TokioSshDeployer::read_step(&remote, 0, &failed), Err("Nix store copy over SSH failed for atlas".to_string()));
    assert_eq!(TokioSshDeployer::read_step(&remote, 1, &failed), Err("Remote activation failed for atlas".to_string()));
    let local = HostEntity::new("jello", "jello", true);
    let runs = TokioSshDeployer::activation_runs(&local, "/nix/store/abc");
    assert_eq!(runs.len(), 1);
    assert_eq!(runs[0].program, "sudo");
    let spawn: Result<CommandOutput, SpawnError> = Err(SpawnError { not_found: true, message: "x".to_string() });
    assert_eq!(TokioSshDeployer::read_step(&local, 0, &spawn), Err("Failed to activate local NixOS configuration".to_string()));
}

#[test]
fn deploy_and_activate_rejects_unknown_action_before_any_ssh() {
    let host = HostEntity::new("atlas", "10.0.0.8", false);
    let profile = SshProfile::for_host(&host);
    let result = SshCliDeployer::deploy_plan(&host, &profile, "/nix/store/abc-system", "evil");
    assert!(matches!(result, Err(NodError::Config { .. })));
}

fn assert_send_sync<T: Send + Sync>() {}

#[test]
fn adapter_stays_send_sync() {
    assert_send_sync::<SshCliDeployer>();
}

#[test]
fn heuristics() {
    assert_send_sync::<LocalDeployer>();
}
