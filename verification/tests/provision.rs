use nod::provision::{InitTemplate, NixosAnywhereProvisioner};

#[test]
fn provisioner_instantiates() {
    let p = NixosAnywhereProvisioner::new();
    let _ = p.clone();
}

#[test]
fn init_template_parses_ignoring_case() {
    assert_eq!(InitTemplate::parse("Fleet"), Ok(InitTemplate::Fleet));
    assert_eq!(InitTemplate::parse("minimal"), Ok(InitTemplate::Minimal));
    assert_eq!(
        InitTemplate::parse("cluster"),
        Err("unknown init template: 'cluster' (expected: minimal, fleet, server)".to_string())
    );
}
