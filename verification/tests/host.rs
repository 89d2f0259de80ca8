use nod::host::{HostEntity, HostRole, SshProfile, TargetHost};

#[test]
fn local_host_defaults() {
    let host = HostEntity::new("jello", "jello-machine", true);
    assert_eq!(host.name, "jello");
    assert!(host.is_local());
    assert_eq!(host.role, HostRole::Server);
    assert_eq!(host.target_user(), "root");
    assert_eq!(host.target_port(), 22);
    assert!(host.tags.is_empty());
    assert!(host.active_closure.is_none());
}

#[test]
fn remote_host_has_no_active_closure() {
    let host = HostEntity::new("atlas", "10.0.0.8", false);
    assert!(!host.is_local());
    assert!(host.active_closure.is_none());
    assert_eq!(host.role, HostRole::Server);
}

#[test]
fn unknown_role_string_maps_to_unknown_variant() {
    assert_eq!(HostRole::parse("desktop"), HostRole::Desktop);
    assert_eq!(HostRole::parse("notebook"), HostRole::Notebook);
    assert_eq!(HostRole::parse("server"), HostRole::Server);
    assert_eq!(HostRole::parse("wobbly"), HostRole::Unknown("wobbly".to_string()));
    assert_eq!(HostRole::parse("wobbly").to_str(), "wobbly");
}

#[test]
fn derived_profile_defaults_when_implicit() {
    let host = HostEntity::new("jello", "jello-machine", true);
    let profile = SshProfile::for_host(&host);
    assert_eq!(profile.user(), "root");
    assert_eq!(profile.port(), 22);
    assert_eq!(profile.timeout_secs(), 30);
    assert!(profile.sudo());
}

#[test]
fn explicit_overrides_are_preserved() {
    let mut host = HostEntity::new("atlas", "10.0.0.8", false);
    host.target_user = String::from("philipp");
    host.target_port = 2222;
    let profile = SshProfile::for_host(&host);
    assert_eq!(profile.user(), "philipp");
    assert_eq!(profile.port(), 2222);
    assert!(!profile.sudo());
}

#[test]
fn profile_values_are_copied_never_mutated_in_place() {
    let host = HostEntity::new("atlas", "10.0.0.8", false);
    let first = SshProfile::for_host(&host);
    let second = SshProfile::for_host(&host);
    assert_eq!(first, second);

    let changed = SshProfile::for_host(&host).with_identity_file("/tmp/key");
    assert_eq!(SshProfile::for_host(&host).identity_file(), None);
    assert_eq!(changed.user(), "root");
    assert!(changed.identity_file().is_some());
}

#[test]
fn target_host_derives_name_profile_and_locality() {
    let host = HostEntity::new("atlas", "10.0.0.8", false);
    let target = TargetHost::from_host(&host);
    assert_eq!(target.name, "atlas");
    assert_eq!(target.profile.user(), "root");
    assert_eq!(target.profile.port(), 22);
    assert!(!target.is_local);
}

#[test]
fn role_and_ssh_profile_accessors_expose_derived_values() {
    let mut host = HostEntity::new("atlas", "10.0.0.8", false);
    assert_eq!(host.role(), &HostRole::Server);
    host.role = HostRole::Desktop;
    assert_eq!(host.role(), &HostRole::Desktop);

    let via_profile = host.ssh_profile();
    assert_eq!(via_profile.user(), "root");
    assert_eq!(via_profile.port(), 22);
    assert!(!via_profile.sudo());
    assert_eq!(via_profile, SshProfile::for_host(&host));
}

#[test]
fn explicit_profile_builds_and_flows_proxy_and_timeout() {
    let profile = SshProfile::new("philipp", 2222).with_proxy_jump("gate.example.net").with_timeout_secs(45);
    assert_eq!(profile.user(), "philipp");
    assert_eq!(profile.port(), 2222);
    assert_eq!(profile.proxy_jump(), Some("gate.example.net"));
    assert_eq!(profile.timeout_secs(), 45);
    assert_eq!(profile.identity_file(), None);
}

#[test]
fn user_port_and_sudo_builders_return_new_profiles() {
    let base = SshProfile::new("philipp", 2222);
    let changed = base.clone().with_user("deploy").with_port(2200).with_sudo(false);
    assert_eq!(base.user(), "philipp");
    assert_eq!(base.port(), 2222);
    assert!(base.sudo());
    assert_eq!(changed.user(), "deploy");
    assert_eq!(changed.port(), 2200);
    assert!(!changed.sudo());
}

#[test]
fn tag_membership_and_role_matching() {
    let mut host = HostEntity::new("atlas", "10.0.0.8", false);
    assert!(!host.has_tag("prod"));
    host.tags = vec!["prod".to_string(), "web".to_string()];
    assert!(host.has_tag("prod"));
    assert!(host.has_tag("web"));
    assert!(!host.has_tag("dev"));

    assert!(host.matches_role("server"));
    assert!(host.matches_role("SERVER"));
    host.role = HostRole::parse("desktop");
    assert!(host.matches_role("desktop"));
    assert!(!host.matches_role("server"));
}

#[test]
fn role_parse_ignores_case_and_keeps_unknown_text() {
    assert_eq!(HostRole::parse("DeskTop"), HostRole::Desktop);
    assert_eq!(HostRole::parse("Bastion").to_str(), "Bastion");
    assert_eq!(HostRole::Notebook.to_str(), "notebook");
}

#[test]
fn extra_args_and_insecure_flag_accumulate() {
    let p = SshProfile::new("u", 22).with_extra_ssh_arg("-v").with_extra_ssh_arg("-C").with_allow_insecure(true);
    assert_eq!(p.extra_ssh_args(), &vec!["-v".to_string(), "-C".to_string()]);
    assert!(p.allow_insecure());
    assert_eq!(p.connect_timeout_secs(), None);
    assert_eq!(p.with_connect_timeout_secs(5).connect_timeout_secs(), Some(5));
}

#[test]
fn parsed_role_prints_its_lowered_input() {
    for s in ["Desktop", "NOTEBOOK", "server", "Wobbly", "hyper-visor"] {
        let printed = HostRole::parse(s).to_str();
        assert_eq!(printed.to_lowercase(), s.to_lowercase());
    }
    assert_eq!(HostRole::parse("Wobbly").to_str(), "Wobbly");
}
