use nod::errors::NodError;
use nod::evaluator::{build_builder_uri, FlakeMeta, LixEvaluator, NixCliEvaluator};
use nod::host::{BuilderHost, HostEntity, HostRole, SshProfile};
use nod::process::{CommandOutput, SpawnError};

fn output(success: bool, stdout: &str, stderr: &str) -> Result<CommandOutput, SpawnError> {
    Ok(CommandOutput { success, code: Some(if success { 0 } else { 1 }), stdout: stdout.to_string(), stderr: stderr.to_string() })
}

#[test]
fn builder_uri_defaults_to_root_user_and_no_port() {
    let host = HostEntity::new("atlas", "10.0.0.8", false);
    let builder = BuilderHost { target_host: host.target_host.clone(), profile: SshProfile::for_host(&host) };
    assert_eq!(build_builder_uri(&builder), "ssh://root@10.0.0.8");
}

#[test]
fn builder_uri_appends_port_when_custom() {
    let builder = BuilderHost { target_host: "buildy".to_string(), profile: SshProfile::new("root", 2222) };
    assert_eq!(build_builder_uri(&builder), "ssh://root@buildy:2222");
}

#[test]
fn builder_uri_custom_user_without_port() {
    let builder = BuilderHost { target_host: "atlas".to_string(), profile: SshProfile::new("deploy", 22) };
    assert_eq!(build_builder_uri(&builder), "ssh://deploy@atlas");
}

#[test]
fn builder_uri_custom_user_and_port_combined() {
    let builder = BuilderHost { target_host: "buildy".to_string(), profile: SshProfile::new("deploy", 2200) };
    assert_eq!(build_builder_uri(&builder), "ssh://deploy@buildy:2200");
}

#[test]
fn builder_uri_identity_uses_default_ssh_scheme() {
    let builder = BuilderHost {
        target_host: "jello".to_string(),
        profile: SshProfile::for_host(&HostEntity::new("jello", "jello-machine", true)),
    };
    assert_eq!(build_builder_uri(&builder), "ssh://root@jello");
}

#[test]
fn nix_escape_handles_quotes_backslashes_and_interpolation() {
    assert_eq!(NixCliEvaluator::nix_escape("plain-name"), "plain-name");
    assert_eq!(NixCliEvaluator::nix_escape("a\"b"), "a\\\"b");
    assert_eq!(NixCliEvaluator::nix_escape("a\\b"), "a\\\\b");
    assert_eq!(NixCliEvaluator::nix_escape("${x}"), "\\${x}");
    assert_eq!(NixCliEvaluator::nix_escape("host with spaces"), "host with spaces");
}

#[test]
fn meta_expr_escapes_path_and_name() {
    let expr = NixCliEvaluator::build_meta_expr("/tmp/my flake", "edge\"host");
    assert!(expr.contains("(import \"/tmp/my flake\")"));
    assert!(expr.contains("nixosConfigurations.\"edge\\\"host\""));
    assert!(expr.contains("else \"edge\\\"host\""));
}

#[test]
fn failing_eval_spawn_yields_err_with_host_name() {
    let spawn: Result<CommandOutput, SpawnError> = Err(SpawnError { not_found: true, message: "nix missing".to_string() });
    let err = NixCliEvaluator::eval_meta("atlas", &spawn, None).unwrap_err();
    assert!(matches!(err, NodError::Evaluation { .. }));
    assert!(err.message().contains("atlas"));
}

#[test]
fn failing_eval_exit_yields_err() {
    let err = NixCliEvaluator::eval_meta("atlas", &output(false, "", "boom"), None).unwrap_err();
    assert!(matches!(err, NodError::Evaluation { .. }));
    assert!(err.message().contains("boom"));
}

#[test]
fn unparseable_eval_json_yields_parse_failure() {
    let err = NixCliEvaluator::eval_meta("atlas", &output(true, "not json", ""), None).unwrap_err();
    assert!(matches!(err, NodError::Evaluation { .. }));
    assert!(err.message().contains("atlas"));
}

fn meta(target: &str, role: &str) -> FlakeMeta {
    FlakeMeta { target_host: target.to_string(), role: role.to_string(), tags: vec![], user: None, port: None, nod: None }
}

#[test]
fn eval_meta_passes_decoded_metadata_through() {
    let m = NixCliEvaluator::eval_meta("atlas", &output(true, "{}", ""), Some(meta("10.0.0.8", "server"))).unwrap();
    assert_eq!(m.target_host, "10.0.0.8");
    assert_eq!(m.role, "server");
}

#[test]
fn host_from_meta_applies_user_port_role_and_locality() {
    let mut m = meta("10.0.0.8", "Desktop");
    m.user = Some("philipp".to_string());
    m.port = Some(2222);
    m.tags = vec!["rack".to_string()];
    let h = NixCliEvaluator::host_from_meta("atlas", m, "atlas");
    assert_eq!(h.target_user, "philipp");
    assert_eq!(h.target_port, 2222);
    assert_eq!(h.role, HostRole::Desktop);
    assert!(h.is_local);
    assert_eq!(h.tags, vec!["rack".to_string()]);
    let other = NixCliEvaluator::host_from_meta("orbit", meta("o", "server"), "atlas");
    assert!(!other.is_local);
    assert_eq!(other.target_user, "root");
    assert_eq!(other.target_port, 22);
}

#[test]
fn discovery_reads_host_names_from_json_array() {
    let names = NixCliEvaluator::read_discovery(&output(true, "[\"atlas\",\"jello\"]", "")).unwrap();
    assert_eq!(names, vec!["atlas".to_string(), "jello".to_string()]);
    assert!(NixCliEvaluator::read_discovery(&output(true, "{\"a\":1}", "")).is_err());
    assert!(NixCliEvaluator::read_discovery(&output(false, "", "error: no flake")).is_err());
}

#[test]
fn build_reads_the_out_path() {
    let json = r#"[{"drvPath":"/nix/store/x.drv","outputs":{"out":"/nix/store/abc-nixos-system"}}]"#;
    let path = NixCliEvaluator::read_build("atlas", &output(true, json, "")).unwrap();
    assert_eq!(path, "/nix/store/abc-nixos-system");
    assert!(NixCliEvaluator::read_build("atlas", &output(false, "", "build failed")).is_err());
}

#[test]
fn build_invocation_adds_builders_for_a_remote_builder() {
    let b = BuilderHost { target_host: "buildy".to_string(), profile: SshProfile::new("deploy", 2200) };
    let inv = NixCliEvaluator::build_invocation("/etc/nixos", "atlas", Some(&b));
    assert_eq!(inv.program, "nix");
    assert!(inv.args.contains(&"--builders".to_string()));
    assert!(inv.args.contains(&"ssh://deploy@buildy:2200".to_string()));
    let local = NixCliEvaluator::build_invocation("/etc/nixos", "atlas", None);
    assert!(!local.args.contains(&"--builders".to_string()));
}

#[test]
fn lix_discovery_texts_name_the_failure() {
    let spawn: Result<CommandOutput, SpawnError> = Err(SpawnError { not_found: true, message: "x".to_string() });
    assert_eq!(LixEvaluator::read_discovery(&spawn), Err("Failed to execute Lix evaluation for host discovery".to_string()));
    assert_eq!(
        LixEvaluator::read_discovery(&output(false, "", "bad flake")),
        Err("Lix host discovery evaluation failed: bad flake".to_string())
    );
    assert_eq!(
        LixEvaluator::read_discovery(&output(true, "nope", "")),
        Err("Failed to parse Lix host discovery JSON output".to_string())
    );
    assert_eq!(LixEvaluator::read_discovery(&output(true, "[\"a\"]", "")), Ok(vec!["a".to_string()]));
}

#[test]
fn lix_hosts_are_plain_servers_named_after_themselves() {
    let hosts = LixEvaluator::hosts_from_names(&vec!["a".to_string(), "b".to_string()], "b");
    assert_eq!(hosts.len(), 2);
    assert_eq!(hosts[0].target_host, "a");
    assert!(!hosts[0].is_local);
    assert!(hosts[1].is_local);
    assert_eq!(hosts[1].role, HostRole::Server);
}

#[test]
fn lix_build_reads_out_path_or_explains() {
    let json = r#"[{"outputs":{"out":"/nix/store/xyz"}}]"#;
    assert_eq!(LixEvaluator::read_build("a", &output(true, json, "")), Ok("/nix/store/xyz".to_string()));
    assert_eq!(LixEvaluator::read_build("a", &output(true, "[]", "")), Err("Build JSON did not contain 'out' store path".to_string()));
    assert_eq!(LixEvaluator::read_build("a", &output(false, "", "oops")), Err("Lix build failed for host a: oops".to_string()));
    let spawn: Result<CommandOutput, SpawnError> = Err(SpawnError { not_found: true, message: "x".to_string() });
    assert_eq!(LixEvaluator::read_build("a", &spawn), Err("Failed to build NixOS system closure with Lix".to_string()));
}

#[test]
fn plain_target_falls_back_to_the_name() {
    assert_eq!(NixCliEvaluator::read_target("atlas", &output(true, "\"10.0.0.8\"", "")), "10.0.0.8");
    assert_eq!(NixCliEvaluator::read_target("atlas", &output(false, "error", "")), "atlas");
    let inv = NixCliEvaluator::target_invocation("/f", "atlas");
    assert!(inv.args[3].starts_with("let c = (import /f).nixosConfigurations.atlas.config;"));
    assert!(inv.args[3].ends_with("else \"atlas\")"));
}

fn assert_send_sync<T: Send + Sync>() {}

#[test]
fn unit_struct_is_constructible_and_send_sync() {
    let evaluator = NixCliEvaluator::new();
    assert_send_sync::<NixCliEvaluator>();
    let _ = evaluator;
}
