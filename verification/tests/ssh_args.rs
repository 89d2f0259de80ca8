use nod::host::{HostEntity, SshProfile};
use nod::ssh_args::{build_ssh_args, build_ssh_opts};

/// Builds a remote-only profile with the requested connection settings.
fn profile_with(user: &str, port: u16, identity: Option<&str>, proxy: Option<&str>, extra: &[&str]) -> SshProfile {
    let mut profile = SshProfile::new(user, port);
    for arg in extra {
        profile = profile.with_extra_ssh_arg(arg);
    }
    if let Some(key) = identity {
        profile = profile.with_identity_file(key);
    }
    if let Some(hop) = proxy {
        profile = profile.with_proxy_jump(hop);
    }
    profile
}

#[test]
fn default_root_at_host() {
    let profile = SshProfile::for_host(&HostEntity::new("atlas", "atlas", false));
    let args = build_ssh_args(&profile, "atlas", false, &Vec::new());
    assert_eq!(
        args,
        [
            "-o",
            "ControlMaster=auto",
            "-o",
            "ControlPath=/tmp/nod-ssh-%r@%h:%p",
            "-o",
            "ControlPersist=60s",
            "root@atlas"
        ]
    );
}

#[test]
fn custom_port_adds_dash_p() {
    let profile = profile_with("root", 2200, None, None, &[]);
    let args = build_ssh_args(&profile, "atlas", false, &Vec::new());
    assert_eq!(
        args,
        [
            "-o",
            "ControlMaster=auto",
            "-o",
            "ControlPath=/tmp/nod-ssh-%r@%h:%p",
            "-o",
            "ControlPersist=60s",
            "-p",
            "2200",
            "root@atlas"
        ]
    );
}

#[test]
fn identity_file_adds_dash_i() {
    let profile = profile_with("root", 22, Some("/path/key"), None, &[]);
    let args = build_ssh_args(&profile, "atlas", false, &Vec::new());
    assert_eq!(
        args,
        [
            "-o",
            "ControlMaster=auto",
            "-o",
            "ControlPath=/tmp/nod-ssh-%r@%h:%p",
            "-o",
            "ControlPersist=60s",
            "-i",
            "/path/key",
            "root@atlas"
        ]
    );
}

#[test]
fn proxy_jump_adds_dash_j() {
    let profile = profile_with("root", 22, None, Some("bastion"), &[]);
    let args = build_ssh_args(&profile, "atlas", false, &Vec::new());
    assert_eq!(
        args,
        [
            "-o",
            "ControlMaster=auto",
            "-o",
            "ControlPath=/tmp/nod-ssh-%r@%h:%p",
            "-o",
            "ControlPersist=60s",
            "-J",
            "bastion",
            "root@atlas"
        ]
    );
}

#[test]
fn port_identity_and_proxy_compose() {
    let profile = profile_with("philipp", 2200, Some("/tmp/id_rsa"), Some("bastion"), &[]);
    let args = build_ssh_args(&profile, "atlas", false, &Vec::new());
    assert_eq!(
        args,
        [
            "-o",
            "ControlMaster=auto",
            "-o",
            "ControlPath=/tmp/nod-ssh-%r@%h:%p",
            "-o",
            "ControlPersist=60s",
            "-p",
            "2200",
            "-i",
            "/tmp/id_rsa",
            "-J",
            "bastion",
            "philipp@atlas"
        ]
    );
}

#[test]
fn extra_ssh_args_are_preserved_positionally() {
    let profile = profile_with("root", 22, None, None, &["-o", "KeepAlive=1"]);
    let args = build_ssh_args(&profile, "atlas", false, &Vec::new());
    assert_eq!(
        args,
        [
            "-o",
            "ControlMaster=auto",
            "-o",
            "ControlPath=/tmp/nod-ssh-%r@%h:%p",
            "-o",
            "ControlPersist=60s",
            "-o",
            "KeepAlive=1",
            "root@atlas"
        ]
    );
}

#[test]
fn sudo_with_interactive_shell_runs_sudo_i() {
    let profile = SshProfile::for_host(&HostEntity::new("atlas", "atlas", false));
    let args = build_ssh_args(&profile, "atlas", true, &Vec::new());
    assert_eq!(
        args,
        [
            "-o",
            "ControlMaster=auto",
            "-o",
            "ControlPath=/tmp/nod-ssh-%r@%h:%p",
            "-o",
            "ControlPersist=60s",
            "root@atlas",
            "sudo",
            "-i"
        ]
    );
}

#[test]
fn sudo_with_trailing_command_prepends_sudo() {
    let profile = SshProfile::for_host(&HostEntity::new("atlas", "atlas", false));
    let args = build_ssh_args(
        &profile,
        "atlas",
        true,
        &vec!["apt-get".to_string(), "update".to_string()],
    );
    assert_eq!(
        args,
        [
            "-o",
            "ControlMaster=auto",
            "-o",
            "ControlPath=/tmp/nod-ssh-%r@%h:%p",
            "-o",
            "ControlPersist=60s",
            "root@atlas",
            "sudo",
            "apt-get",
            "update"
        ]
    );
}

#[test]
fn remote_command_is_append_without_sudo() {
    let profile = SshProfile::for_host(&HostEntity::new("atlas", "atlas", false));
    let args = build_ssh_args(
        &profile,
        "atlas",
        false,
        &vec!["uname".to_string(), "-a".to_string()],
    );
    assert_eq!(
        args,
        [
            "-o",
            "ControlMaster=auto",
            "-o",
            "ControlPath=/tmp/nod-ssh-%r@%h:%p",
            "-o",
            "ControlPersist=60s",
            "root@atlas",
            "uname",
            "-a"
        ]
    );
}

#[test]
fn ssh_opts_omit_the_destination() {
    let profile = profile_with("root", 2200, None, None, &[]);
    let opts = build_ssh_opts(&profile);
    assert_eq!(
        opts,
        [
            "-o",
            "ControlMaster=auto",
            "-o",
            "ControlPath=/tmp/nod-ssh-%r@%h:%p",
            "-o",
            "ControlPersist=60s",
            "-p",
            "2200"
        ]
    );
}
