use nod::errors::NodError;
use nod::process::SpawnError;
use nod::quality_gate::{classify, deadnix_gate, gate_warning, GateClassification, QualityGate};

fn launch_error() -> Result<bool, SpawnError> {
    Err(SpawnError { not_found: true, message: "No such file or directory".to_string() })
}

fn failed_status() -> Result<bool, SpawnError> {
    Ok(false)
}

fn ok_status() -> Result<bool, SpawnError> {
    Ok(true)
}

#[test]
fn file_target_itself_is_resolved_unchanged() {
    let file = "/tmp/checkout/flake.nix";
    let resolved = QualityGate::resolve_target_file(file, false);
    assert_eq!(resolved, file);
}

#[test]
fn directory_flake_resolves_to_its_card_file() {
    assert_eq!(QualityGate::resolve_target_file("/tmp/checkout", true), "/tmp/checkout/flake.nix");
    assert_eq!(QualityGate::resolve_target_file("/tmp/checkout/", true), "/tmp/checkout/flake.nix");
}

#[test]
fn deadnix_launch_failure_is_a_hard_evaluation_error() {
    let err = deadnix_gate(&launch_error()).unwrap_err();
    assert!(matches!(err, NodError::Evaluation { .. }));
    assert!(err.message().contains("deadnix"));
}

#[test]
fn deadnix_nonzero_exit_is_a_hard_evaluation_error() {
    let err = deadnix_gate(&failed_status()).unwrap_err();
    assert!(matches!(err, NodError::Evaluation { .. }));
}

#[test]
fn deadnix_pass_is_ok() {
    assert!(deadnix_gate(&ok_status()).is_ok());
}

#[test]
fn warn_gate_launch_failure_is_not_a_hard_error() {
    assert!(gate_warning("nixfmt", classify(&launch_error())).is_some());
    assert!(gate_warning("statix", classify(&launch_error())).is_some());
}

#[test]
fn warn_gate_missing_tool_warning_is_explicit() {
    let msg = gate_warning("nixfmt", classify(&launch_error())).unwrap();
    assert!(msg.contains("nixfmt not found"));
    assert!(msg.contains("skipping nixfmt check"));
}

#[test]
fn warn_gate_nonzero_exit_stays_warn_only() {
    let msg = gate_warning("statix", classify(&failed_status())).unwrap();
    assert!(msg.contains("statix"));
    assert_eq!(gate_warning("nixfmt", classify(&failed_status())).unwrap(), "⚠ nixfmt reported formatting issues.");
}

#[test]
fn passing_gate_has_no_warning_and_notes_differ_by_tool() {
    assert_eq!(classify(&ok_status()), GateClassification::Pass);
    assert_eq!(gate_warning("statix", GateClassification::Pass), None);
    assert_eq!(gate_warning("statix", GateClassification::FailedCheck).unwrap(), "⚠ statix reported anti-patterns.");
    assert_eq!(gate_warning("other", GateClassification::FailedCheck).unwrap(), "⚠ other reported issues.");
}

#[test]
fn gate_commands_are_built_as_documented() {
    let fmt = QualityGate::nixfmt_invocation("/f/flake.nix");
    assert_eq!((fmt.program.as_str(), fmt.args.clone()), ("nixfmt", vec!["--check".to_string(), "/f/flake.nix".to_string()]));
    let dead = QualityGate::deadnix_invocation("/f");
    assert_eq!(dead.args, ["--fail", "/f"]);
    let statix = QualityGate::statix_invocation("/f");
    assert_eq!(statix.args, ["check", "/f"]);
}
