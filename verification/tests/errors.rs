use nod::errors::NodError;

#[test]
fn error_variants_classify_failure_origin() {
    let eval = NodError::discovery_failure("boom");
    assert!(matches!(eval, NodError::Evaluation { .. }));
    assert_eq!(eval, NodError::evaluation("Nix host discovery evaluation failed: boom"));

    let deploy = NodError::local_activate("sudo missing");
    assert!(matches!(deploy, NodError::Deployment { .. }));

    let config = NodError::not_found("atlas");
    assert!(matches!(config, NodError::Config { .. }));

    let health = NodError::unreachable("atlas");
    assert!(matches!(health, NodError::HealthCheck { .. }));

    let internal = NodError::invariant_violated("unreachable state");
    assert!(matches!(internal, NodError::Internal { .. }));
}

#[test]
fn messages_include_underlying_cause() {
    assert!(NodError::build_failure("jello", "eval failed").message().contains("jello"));
    assert!(NodError::build_failure("jello", "eval failed").message().contains("eval failed"));
    assert!(NodError::missing_binding("ConfigStorePort").message().contains("ConfigStorePort"));
    assert!(NodError::not_found("atlas").message().contains("atlas"));
}

#[test]
fn errors_are_debug_printable_and_comparable() {
    let a = NodError::config_parse("bad toml");
    let b = a.clone();
    assert_eq!(format!("{a:?}"), format!("{b:?}"));
    assert_eq!(a, b);
}

#[test]
fn rollback_failure_is_a_deployment_error() {
    let err = NodError::rollback_failure("store transfer aborted");
    assert!(matches!(err, NodError::Deployment { .. }));
    assert!(err.message().contains("rollback"));
    assert!(err.message().contains("store transfer aborted"));
}

#[test]
fn message_is_class_prefix_then_detail() {
    assert_eq!(NodError::evaluation("x").message(), "evaluation error: x");
    assert_eq!(NodError::deployment("y").detail(), "y");
}
