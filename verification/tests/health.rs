use nod::health::SystemdHealthChecker;
use nod::host::HostEntity;

#[test]
fn running_system_without_failed_units_is_healthy() {
    assert!(SystemdHealthChecker::healthy("running", &vec![]));
    assert!(SystemdHealthChecker::healthy("degraded", &vec![]));
}

#[test]
fn failed_units_flip_the_verdict_unhealthy() {
    let failed = vec!["foo.service".to_string()];
    assert!(!SystemdHealthChecker::healthy("running", &failed));
    assert!(!SystemdHealthChecker::healthy("degraded", &failed));
}

#[test]
fn non_running_states_are_unhealthy() {
    for state in ["offline", "maintenance", "stopping", "unknown", ""] {
        assert!(!SystemdHealthChecker::healthy(state, &vec![]), "state={}", state);
    }
}

#[test]
fn failed_units_parses_column_output_without_glyph() {
    let output = "  UNIT                     LOAD   ACTIVE SUB    DESCRIPTION\n  foo.service              loaded failed failed Some service failed\n  bar.service              loaded failed failed Another service\n0 failed units listed.\n";
    let units = SystemdHealthChecker::failed_units(output);
    assert_eq!(units, vec!["foo.service".to_string(), "bar.service".to_string()]);
}

#[test]
fn no_failed_rows_means_no_failed_units() {
    assert!(SystemdHealthChecker::failed_units("0 loaded units listed.").is_empty());
    assert!(SystemdHealthChecker::failed_units("").is_empty());
}

#[test]
fn digit_leading_failed_unit_is_detected_while_summary_is_skipped() {
    let output = "  UNIT                      LOAD   ACTIVE SUB    DESCRIPTION\n  10gig.service             loaded failed failed Big service\n3 failed units listed.\n";
    let units = SystemdHealthChecker::failed_units(output);
    assert_eq!(units, vec!["10gig.service".to_string()]);
}

#[test]
fn required_unit_not_active_yields_unhealthy() {
    assert!(!SystemdHealthChecker::healthy_with_required("running", &vec![], &vec![false]));
    assert!(!SystemdHealthChecker::healthy_with_required("running", &vec!["dep.service".to_string()], &vec![true, false]));
}

#[test]
fn empty_required_units_fall_back_to_base_semantics() {
    assert!(SystemdHealthChecker::healthy_with_required("running", &vec![], &vec![]));
    assert!(!SystemdHealthChecker::healthy_with_required("offline", &vec![], &vec![]));
}

#[test]
fn disabled_health_check_short_circuits_healthy() {
    let mut host = HostEntity::new("local-box", "local-box", true);
    host.nod_config.health_checks.enable = Some(false);
    assert_eq!(SystemdHealthChecker::precheck(&host), Ok(Some(true)));
}

#[test]
fn remote_host_is_a_health_check_error() {
    let host = HostEntity::new("atlas", "10.0.0.8", false);
    let err = SystemdHealthChecker::precheck(&host).unwrap_err();
    assert!(matches!(err, nod::errors::NodError::HealthCheck { .. }));
    assert!(err.message().contains("atlas"));
}

#[test]
fn enabled_local_check_runs_the_probes() {
    let host = HostEntity::new("local-box", "local-box", true);
    assert_eq!(SystemdHealthChecker::precheck(&host), Ok(None));
}
