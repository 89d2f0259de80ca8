//! Deployment transports: what the local deployer (`sudo
//! switch-to-configuration` on this machine) and the SSH deployer (`nix copy`
//! plus a remote switch) run, and what their runs mean.
//!
//! Each operation is a command (or a short fixed sequence of commands) built
//! here and a reading of its outcome; spawning and waiting are the caller's.

use vstd::prelude::*;
use crate::errors::{ErrorClass, NodError};
use crate::generation::{CopyOptions, CopyReport, GcOptions, GcReport};
use crate::host::{HostEntity, SshProfile};
use crate::plan::{action_named, DeploymentAction};
use crate::process::{CommandOutput, Invocation, SpawnError};
use crate::scan::{lines_of, split_lines};
use crate::ssh_args::{build_ssh_args, build_ssh_opts, ssh_args, ssh_opts};
use crate::text::{decimal, decimal_string, joined, path_joined, trim, trimmed, views};

verus! {

/// Deploys local hosts through `sudo <closure>/bin/switch-to-configuration`.
#[derive(Debug, Clone, Copy, PartialEq, Eq)]
pub struct LocalDeployer;

/// Deploys remote hosts through store copy over SSH and a remote switch.
#[derive(Debug, Clone, Copy, PartialEq, Eq)]
pub struct SshCliDeployer;

/// The plain `ssh`/`ping` deployer of the early command set.
#[derive(Debug, Clone, Copy, PartialEq, Eq)]
pub struct TokioSshDeployer;

impl LocalDeployer {
    /// Creates the deployer.
    pub fn new() -> (r: LocalDeployer) {
        LocalDeployer
    }
}

impl SshCliDeployer {
    /// Creates the deployer.
    pub fn new() -> (r: SshCliDeployer) {
        SshCliDeployer
    }
}

impl TokioSshDeployer {
    /// Creates the deployer.
    pub fn new() -> (r: TokioSshDeployer) {
        TokioSshDeployer
    }
}

/// `s` single-quoted for a POSIX shell: each `'` becomes `'\''`.
pub open spec fn quoted_body(s: Seq<char>) -> Seq<char>
    decreases s.len(),
{
    if s.len() == 0 {
        Seq::empty()
    } else if s[0] == '\'' {
        seq!['\'', '\\', '\'', '\''] + quoted_body(s.drop_first())
    } else {
        seq![s[0]] + quoted_body(s.drop_first())
    }
}

/// `s` as one single-quoted shell word.
pub open spec fn shell_quoted(s: Seq<char>) -> Seq<char> {
    seq!['\''] + quoted_body(s) + seq!['\'']
}

/// Single-quotes a string for the remote `/bin/sh -c` shell: a literal `'`
/// is written with the POSIX idiom `'\''`, so paths containing spaces or
/// quotes survive as a single word on the remote shell.
pub fn shell_quote(s: &str) -> (q: String)
    ensures
        q@ == shell_quoted(s@),
{
    let cs = crate::text::chars_of(s);
    let n = cs.len();
    let mut q = String::new();
    crate::text::push_char(&mut q, '\'');
    let mut i: usize = 0;
    proof {
        assert(s@.skip(0) =~= s@);
    }
    while i < n
        invariant
            cs@ == s@,
            n == cs@.len(),
            i <= n,
            q@ + quoted_body(s@.skip(i as int)) == seq!['\''] + quoted_body(s@),
        decreases n - i,
    {
        let ghost before = q@;
        let c = cs[i];
        proof {
            assert(s@.skip(i as int)[0] == c);
            assert(s@.skip(i as int).drop_first() =~= s@.skip(i as int + 1));
        }
        if c == '\'' {
            crate::text::push_char(&mut q, '\'');
            crate::text::push_char(&mut q, '\\');
            crate::text::push_char(&mut q, '\'');
            crate::text::push_char(&mut q, '\'');
            proof {
                assert(q@ =~= before + seq!['\'', '\\', '\'', '\'']);
            }
        } else {
            crate::text::push_char(&mut q, c);
            proof {
                assert(q@ =~= before + seq![c]);
            }
        }
        i += 1;
    }
    let ghost mid = q@;
    crate::text::push_char(&mut q, '\'');
    proof {
        assert(s@.skip(n as int) =~= Seq::<char>::empty());
        assert(mid =~= seq!['\''] + quoted_body(s@));
    }
    q
}

/// The error for an action outside the allow-list.
pub open spec fn unknown_action_text(action: Seq<char>) -> Seq<char> {
    "unknown deployment action '"@ + action
        + "'; expected one of: switch, boot, test, dry-run, build"@
}

/// The activation binary inside a closure.
pub open spec fn switch_bin(closure: Seq<char>) -> Seq<char> {
    path_joined(closure, "bin/switch-to-configuration"@)
}

/// Validates the activation action against the deployment allow-list
/// (case-insensitively, as [`DeploymentAction::parse`] does) and builds the
/// remote shell command: the quoted activation binary of `switch_bin`
/// followed by the action. An unknown action is a configuration error.
pub fn build_remote_command(switch_bin: &str, action: &str) -> (r: Result<String, NodError>)
    ensures
        match action_named(crate::host::lowercase_of(action@)) {
            Some(_) => r matches Ok(c) && c@ == shell_quoted(switch_bin@) + " "@ + action@,
            None => r matches Err(e) && e.is(ErrorClass::Config, unknown_action_text(action@)),
        },
{
    match DeploymentAction::parse(action) {
        None => {
            let mut d = String::from_str("unknown deployment action '");
            d.append(action);
            d.append("'; expected one of: switch, boot, test, dry-run, build");
            Err(NodError::config(d.as_str()))
        },
        Some(_) => {
            let mut c = shell_quote(switch_bin);
            c.append(" ");
            c.append(action);
            Ok(c)
        },
    }
}

/// Three strings as a vector.
fn three(a: &str, b: &str, c: &str) -> (v: Vec<String>)
    ensures
        views(v@) == seq![a@, b@, c@],
{
    let mut v: Vec<String> = Vec::new();
    v.push(a.to_owned());
    v.push(b.to_owned());
    v.push(c.to_owned());
    proof {
        assert(views(v@) =~= seq![a@, b@, c@]);
    }
    v
}

/// Two strings as a vector.
fn two(a: &str, b: &str) -> (v: Vec<String>)
    ensures
        views(v@) == seq![a@, b@],
{
    let mut v: Vec<String> = Vec::new();
    v.push(a.to_owned());
    v.push(b.to_owned());
    proof {
        assert(views(v@) =~= seq![a@, b@]);
    }
    v
}

/// `ok` when the run started and succeeded, else the error made from
/// `on_spawn` or `on_failure`.
fn check_run(
    outcome: &Result<CommandOutput, SpawnError>,
    on_spawn: NodError,
    on_failure: NodError,
) -> (r: Result<(), NodError>)
    ensures
        match outcome {
            Err(_) => r == Err::<(), NodError>(on_spawn),
            Ok(out) => if out.success {
                r is Ok
            } else {
                r == Err::<(), NodError>(on_failure)
            },
        },
{
    match outcome {
        Err(_) => Err(on_spawn),
        Ok(out) => if out.success {
            Ok(())
        } else {
            Err(on_failure)
        },
    }
}

/// The one-line summary of a garbage collection run: the last line of its
/// output (or `done` when it printed none), trimmed, on success; its
/// trimmed error output otherwise.
pub open spec fn gc_summary(out: CommandOutput) -> Seq<char> {
    if out.success {
        let lines = lines_of(out.stdout@);
        trimmed(if lines.len() > 0 {
            lines.last()
        } else {
            "done"@
        })
    } else {
        trimmed(out.stderr@)
    }
}

/// Builds the report of a garbage collection run of `host_name`.
pub fn gc_report(host_name: &str, outcome: &Result<CommandOutput, SpawnError>, spawn_error: NodError) -> (r: Result<GcReport, NodError>)
    ensures
        match outcome {
            Err(_) => r == Err::<GcReport, NodError>(spawn_error),
            Ok(out) => r matches Ok(rep) && rep.host_name@ == host_name@ && rep.success == out.success
                && rep.output_summary@ == gc_summary(*out),
        },
{
    match outcome {
        Err(_) => Err(spawn_error),
        Ok(out) => {
            let summary: String = if out.success {
                let lines = split_lines(out.stdout.as_str());
                if lines.len() > 0 {
                    trim(lines[lines.len() - 1].as_str()).to_owned()
                } else {
                    trim("done").to_owned()
                }
            } else {
                trim(out.stderr.as_str()).to_owned()
            };
            Ok(GcReport { host_name: host_name.to_owned(), success: out.success, output_summary: summary })
        },
    }
}

/// The commands of a local garbage collection: an optional pruning of old
/// system generations, then the collection itself.
#[derive(Debug, Clone, PartialEq, Eq)]
pub struct LocalGcPlan {
    /// `nix-env -p /nix/var/nix/profiles/system --delete-generations +<keep>`,
    /// run first with its outcome ignored.
    pub prune: Option<Invocation>,
    /// The `nix-collect-garbage` run.
    pub collect: Invocation,
}

/// `program` run directly when `direct`, else through `sudo`.
pub open spec fn elevated(direct: bool, program: Seq<char>, args: Seq<Seq<char>>) -> (Seq<char>, Seq<Seq<char>>) {
    if direct {
        (program, args)
    } else {
        ("sudo"@, seq![program] + args)
    }
}

/// The arguments `nix-collect-garbage` gets from the options: the age
/// filter unless generations are kept by count, `-d` for a plain run, and
/// `--dry-run` for a preview.
pub open spec fn gc_args(options: GcOptions) -> Seq<Seq<char>> {
    (if options.keep is Some {
        Seq::empty()
    } else {
        match options.older_than {
            Some(o) => seq!["--delete-older-than"@, o@],
            None => if !options.dry_run {
                seq!["-d"@]
            } else {
                Seq::empty()
            },
        }
    }) + if options.dry_run {
        seq!["--dry-run"@]
    } else {
        Seq::empty()
    }
}

/// The invocation `inv` runs `cmd` (program and arguments) with no extra
/// environment.
pub open spec fn runs(inv: Invocation, cmd: (Seq<char>, Seq<Seq<char>>)) -> bool {
    inv.program@ == cmd.0 && views(inv.args@) == cmd.1 && inv.env@.len() == 0
}

/// `program` with `args`, through `sudo` unless `direct`.
fn elevated_invocation(direct: bool, program: &str, args: Vec<String>) -> (inv: Invocation)
    ensures
        runs(inv, elevated(direct, program@, views(args@))),
{
    if direct {
        Invocation::new(program, args)
    } else {
        let mut all: Vec<String> = Vec::new();
        all.push(program.to_owned());
        let mut i: usize = 0;
        while i < args.len()
            invariant
                i <= args@.len(),
                views(all@) == seq![program@] + views(args@).take(i as int),
            decreases args@.len() - i,
        {
            let ghost before = all@;
            all.push(args[i].clone());
            proof {
                assert(views(all@) =~= views(before).push(args@[i as int]@));
                assert(views(args@).take(i as int + 1) =~= views(args@).take(i as int).push(args@[i as int]@));
            }
            i += 1;
        }
        proof {
            assert(views(args@).take(args@.len() as int) =~= views(args@));
        }
        Invocation::new("sudo", all)
    }
}

impl LocalDeployer {
    /// `sudo <closure>/bin/switch-to-configuration <action>`.
    pub fn activation_invocation(closure: &str, action: &str) -> (inv: Invocation)
        ensures
            runs(inv, ("sudo"@, seq![switch_bin(closure@), action@])),
    {
        proof {
            reveal_strlit("bin/switch-to-configuration");
        }
        let bin = crate::text::join_path(closure, "bin/switch-to-configuration");
        Invocation::new("sudo", two(bin.as_str(), action))
    }

    /// Reads the local activation run.
    pub fn read_activation(outcome: &Result<CommandOutput, SpawnError>) -> (r: Result<(), NodError>)
        ensures
            match outcome {
                Err(_) => r matches Err(e) && e.is(
                    ErrorClass::Deployment,
                    "failed to activate local NixOS configuration: failed to launch sudo switch-to-configuration"@,
                ),
                Ok(out) => if out.success {
                    r is Ok
                } else {
                    r matches Err(e) && e.is(
                        ErrorClass::Deployment,
                        "failed to activate local NixOS configuration: switch-to-configuration reported failure"@,
                    )
                },
            },
    {
        proof {
            reveal_strlit("failed to activate local NixOS configuration: ");
            reveal_strlit("failed to launch sudo switch-to-configuration");
            reveal_strlit("switch-to-configuration reported failure");
            reveal_strlit("failed to activate local NixOS configuration: failed to launch sudo switch-to-configuration");
            reveal_strlit("failed to activate local NixOS configuration: switch-to-configuration reported failure");
            assert("failed to activate local NixOS configuration: "@ + "failed to launch sudo switch-to-configuration"@
                =~= "failed to activate local NixOS configuration: failed to launch sudo switch-to-configuration"@);
            assert("failed to activate local NixOS configuration: "@ + "switch-to-configuration reported failure"@
                =~= "failed to activate local NixOS configuration: switch-to-configuration reported failure"@);
        }
        check_run(
            outcome,
            NodError::local_activate("failed to launch sudo switch-to-configuration"),
            NodError::local_activate("switch-to-configuration reported failure"),
        )
    }

    /// `nixos-rebuild --rollback switch`.
    pub fn rollback_invocation() -> (inv: Invocation)
        ensures
            runs(inv, ("nixos-rebuild"@, seq!["--rollback"@, "switch"@])),
    {
        Invocation::new("nixos-rebuild", two("--rollback", "switch"))
    }

    /// Reads the local rollback run.
    pub fn read_rollback(outcome: &Result<CommandOutput, SpawnError>) -> (r: Result<(), NodError>)
        ensures
            match outcome {
                Err(_) => r matches Err(e) && e.is(
                    ErrorClass::Deployment,
                    "rollback failed: failed to launch `nixos-rebuild --rollback`"@,
                ),
                Ok(out) => if out.success {
                    r is Ok
                } else {
                    r matches Err(e) && e.is(
                        ErrorClass::Deployment,
                        "rollback failed: nixos-rebuild --rollback reported failure"@,
                    )
                },
            },
    {
        proof {
            reveal_strlit("rollback failed: ");
            reveal_strlit("failed to launch `nixos-rebuild --rollback`");
            reveal_strlit("nixos-rebuild --rollback reported failure");
            reveal_strlit("rollback failed: failed to launch `nixos-rebuild --rollback`");
            reveal_strlit("rollback failed: nixos-rebuild --rollback reported failure");
            assert("rollback failed: "@ + "failed to launch `nixos-rebuild --rollback`"@
                =~= "rollback failed: failed to launch `nixos-rebuild --rollback`"@);
            assert("rollback failed: "@ + "nixos-rebuild --rollback reported failure"@
                =~= "rollback failed: nixos-rebuild --rollback reported failure"@);
        }
        check_run(
            outcome,
            NodError::rollback_failure("failed to launch `nixos-rebuild --rollback`"),
            NodError::rollback_failure("nixos-rebuild --rollback reported failure"),
        )
    }

    /// `sudo systemctl reboot`.
    pub fn reboot_invocation() -> (inv: Invocation)
        ensures
            runs(inv, ("sudo"@, seq!["systemctl"@, "reboot"@])),
    {
        Invocation::new("sudo", two("systemctl", "reboot"))
    }

    /// Reads the local reboot run of `host_name`.
    pub fn read_reboot(host_name: &str, outcome: &Result<CommandOutput, SpawnError>) -> (r: Result<(), NodError>)
        ensures
            match outcome {
                Ok(out) if out.success => r is Ok,
                _ => r matches Err(e) && e.is(
                    ErrorClass::Deployment,
                    "failed to execute local reboot for "@ + host_name@,
                ),
            },
    {
        let mut d = String::from_str("failed to execute local reboot for ");
        d.append(host_name);
        let e = NodError::deployment(d.as_str());
        match outcome {
            Ok(out) => if out.success {
                Ok(())
            } else {
                Err(e)
            },
            Err(_) => Err(e),
        }
    }

    /// `sh -c "stat -c '%n %Y %N' /nix/var/nix/profiles/system* 2>/dev/null || true"`.
    pub fn generations_invocation() -> (inv: Invocation)
        ensures
            runs(inv, ("sh"@, seq!["-c"@, "stat -c '%n %Y %N' /nix/var/nix/profiles/system* 2>/dev/null || true"@])),
    {
        Invocation::new("sh", two("-c", "stat -c '%n %Y %N' /nix/var/nix/profiles/system* 2>/dev/null || true"))
    }

    /// The garbage collection commands for `options`; `is_root` tells
    /// whether the current user is `root`, who needs no `sudo`. Generations
    /// are pruned by count before collecting, except in a dry run.
    pub fn gc_plan(options: &GcOptions, is_root: bool) -> (p: LocalGcPlan)
        ensures
            runs(p.collect, elevated(options.dry_run || is_root, "nix-collect-garbage"@, gc_args(*options))),
            match options.keep {
                Some(k) if !options.dry_run => p.prune matches Some(inv) && runs(
                    inv,
                    elevated(
                        is_root,
                        "nix-env"@,
                        seq![
                            "-p"@,
                            "/nix/var/nix/profiles/system"@,
                            "--delete-generations"@,
                            "+"@ + decimal(k as nat),
                        ],
                    ),
                ),
                _ => p.prune is None,
            },
    {
        let mut args: Vec<String> = Vec::new();
        let mut prune: Option<Invocation> = None;
        match options.keep {
            Some(k) => {
                if !options.dry_run {
                    let mut keep = String::from_str("+");
                    keep.append(decimal_string(k as u64).as_str());
                    let mut pargs: Vec<String> = Vec::new();
                    pargs.push(String::from_str("-p"));
                    pargs.push(String::from_str("/nix/var/nix/profiles/system"));
                    pargs.push(String::from_str("--delete-generations"));
                    pargs.push(keep);
                    proof {
                        assert(views(pargs@) =~= seq![
                            "-p"@,
                            "/nix/var/nix/profiles/system"@,
                            "--delete-generations"@,
                            "+"@ + decimal(k as nat),
                        ]);
                    }
                    prune = Some(elevated_invocation(is_root, "nix-env", pargs));
                }
            },
            None => match &options.older_than {
                Some(o) => {
                    args.push(String::from_str("--delete-older-than"));
                    args.push(o.clone());
                },
                None => {
                    if !options.dry_run {
                        args.push(String::from_str("-d"));
                    }
                },
            },
        }
        let ghost a = views(args@);
        if options.dry_run {
            args.push(String::from_str("--dry-run"));
        }
        proof {
            assert(views(args@) =~= a + if options.dry_run {
                seq!["--dry-run"@]
            } else {
                Seq::empty()
            });
            assert(a =~= if options.keep is Some {
                Seq::<Seq<char>>::empty()
            } else {
                match options.older_than {
                    Some(o) => seq!["--delete-older-than"@, o@],
                    None => if !options.dry_run {
                        seq!["-d"@]
                    } else {
                        Seq::empty()
                    },
                }
            });
        }
        let collect = elevated_invocation(options.dry_run || is_root, "nix-collect-garbage", args);
        LocalGcPlan { prune, collect }
    }
}

/// The store URI `nix copy` reaches a host through: `ssh://<user>@<host>`,
/// with `:<port>` when the port is not 22.
pub open spec fn store_uri(user: Seq<char>, host: Seq<char>, port: u16) -> Seq<char> {
    "ssh://"@ + user + "@"@ + host + if port != 22 {
        ":"@ + decimal(port as nat)
    } else {
        Seq::empty()
    }
}

/// The two runs of a remote deployment: the store copy, then the activation.
#[derive(Debug, Clone, PartialEq, Eq)]
pub struct RemoteDeployPlan {
    /// `nix copy --to <store-uri> <closure>` with the connection flags in
    /// `NIX_SSHOPTS`.
    pub copy: Invocation,
    /// `ssh ... '<closure>/bin/switch-to-configuration' <action>`.
    pub activate: Invocation,
}

/// The two runs of a remote rollback: the generation query, then the switch
/// back.
#[derive(Debug, Clone, PartialEq, Eq)]
pub struct RemoteRollbackPlan {
    pub query: Invocation,
    pub rollback: Invocation,
}

/// `ssh` with the arguments for `profile`, `host` and a single remote command.
pub open spec fn ssh_run(inv: Invocation, profile: crate::host::SshProfileView, host: Seq<char>, cmd: Seq<char>) -> bool {
    runs(inv, ("ssh"@, ssh_args(profile, host, false, seq![cmd])))
}

/// The remote command of a garbage collection with `options`.
pub open spec fn remote_gc_command(options: GcOptions) -> Seq<char> {
    let dry = if options.dry_run {
        " --dry-run"@
    } else {
        ""@
    };
    match options.keep {
        Some(k) => "sudo nix-env -p /nix/var/nix/profiles/system --delete-generations +"@ + decimal(k as nat)
            + " && sudo nix-collect-garbage"@ + dry,
        None => match options.older_than {
            Some(o) => "sudo nix-collect-garbage --delete-older-than "@ + o@ + dry,
            None => "sudo nix-collect-garbage -d"@ + dry,
        },
    }
}

/// Where a host's SSH port is probed, and for how long.
#[derive(Debug, Clone, PartialEq, Eq)]
pub struct ReachabilityProbe {
    pub host: String,
    pub port: u16,
    pub timeout_secs: u64,
}

impl SshCliDeployer {
    /// `ssh` running one remote command on `host` with `profile`.
    fn ssh_with(profile: &SshProfile, target_host: &str, cmd: &str) -> (inv: Invocation)
        ensures
            ssh_run(inv, profile@, target_host@, cmd@),
    {
        let mut c: Vec<String> = Vec::new();
        c.push(cmd.to_owned());
        proof {
            assert(views(c@) =~= seq![cmd@]);
        }
        Invocation::new("ssh", build_ssh_args(profile, target_host, false, &c))
    }

    /// The TCP probe of a host: its SSH port (the flake's `ssh.port`, else
    /// the host's port) with the connect timeout (the flake's, else 3 s).
    pub fn reachability_probe(host: &HostEntity) -> (p: ReachabilityProbe)
        ensures
            p.host@ == host.target_host@,
            p.port == (match host.nod_config.ssh.port {
                Some(x) => x,
                None => host.target_port,
            }),
            p.timeout_secs == (match host.nod_config.ssh.connect_timeout_secs {
                Some(t) => t as u64,
                None => 3u64,
            }),
    {
        ReachabilityProbe {
            host: host.target_host.clone(),
            port: match host.nod_config.ssh.port {
                Some(x) => x,
                None => host.target_port,
            },
            timeout_secs: match host.nod_config.ssh.connect_timeout_secs {
                Some(t) => t as u64,
                None => 3,
            },
        }
    }

    /// Reads the probe: a connection within the timeout makes the host
    /// reachable; anything else is an unreachable-host error.
    pub fn read_reachability(host_name: &str, connected: bool) -> (r: Result<bool, NodError>)
        ensures
            connected ==> r == Ok::<bool, NodError>(true),
            !connected ==> (r matches Err(e) && e.is(ErrorClass::HealthCheck, "host failed health probe: "@ + host_name@)),
    {
        if connected {
            Ok(true)
        } else {
            Err(NodError::unreachable(host_name))
        }
    }

    /// `ssh ... readlink /run/current-system`.
    pub fn current_closure_invocation(host: &HostEntity, profile: &SshProfile) -> (inv: Invocation)
        ensures
            ssh_run(inv, profile@, host.target_host@, "readlink /run/current-system"@),
    {
        Self::ssh_with(profile, host.target_host.as_str(), "readlink /run/current-system")
    }

    /// Reads the closure query: a failed run or empty output means no live
    /// closure; otherwise the trimmed output is the closure path.
    pub fn read_current_closure(host_name: &str, outcome: &Result<CommandOutput, SpawnError>) -> (r: Result<Option<String>, NodError>)
        ensures
            match outcome {
                Err(_) => r matches Err(e) && e.is(
                    ErrorClass::Deployment,
                    "failed to query current closure of "@ + host_name@ + " over SSH"@,
                ),
                Ok(out) => if !out.success || trimmed(out.stdout@).len() == 0 {
                    r matches Ok(None)
                } else {
                    r matches Ok(Some(p)) && p@ == trimmed(out.stdout@)
                },
            },
    {
        match outcome {
            Err(_) => {
                let mut d = String::from_str("failed to query current closure of ");
                d.append(host_name);
                d.append(" over SSH");
                Err(NodError::deployment(d.as_str()))
            },
            Ok(out) => {
                if !out.success {
                    return Ok(None);
                }
                let path = trim(out.stdout.as_str());
                if path.unicode_len() == 0 {
                    Ok(None)
                } else {
                    Ok(Some(path.to_owned()))
                }
            },
        }
    }

    /// The runs of deploying `closure` to `host` with `action`: the action is
    /// checked first (see [`build_remote_command`]); then the store copy
    /// with the profile's connection flags in `NIX_SSHOPTS`, and the remote
    /// activation.
    pub fn deploy_plan(host: &HostEntity, profile: &SshProfile, closure: &str, action: &str) -> (r: Result<RemoteDeployPlan, NodError>)
        ensures
            match action_named(crate::host::lowercase_of(action@)) {
                None => r matches Err(e) && e.is(ErrorClass::Config, unknown_action_text(action@)),
                Some(_) => r matches Ok(p) && p.copy.program@ == "nix"@ && views(p.copy.args@) == seq![
                    "copy"@,
                    "--to"@,
                    store_uri(profile@.user, host.target_host@, profile@.port),
                    closure@,
                ] && crate::process::env_view(p.copy.env@) == seq![("NIX_SSHOPTS"@, joined(ssh_opts(profile@), " "@))]
                    && ssh_run(
                    p.activate,
                    profile@,
                    host.target_host@,
                    shell_quoted(switch_bin(closure@)) + " "@ + action@,
                ),
            },
    {
        proof {
            reveal_strlit("bin/switch-to-configuration");
        }
        let bin = crate::text::join_path(closure, "bin/switch-to-configuration");
        let remote_cmd = match build_remote_command(bin.as_str(), action) {
            Ok(c) => c,
            Err(e) => return Err(e),
        };
        let mut target = String::from_str("ssh://");
        target.append(profile.user());
        target.append("@");
        target.append(host.target_host.as_str());
        if profile.port() != 22 {
            target.append(":");
            target.append(decimal_string(profile.port() as u64).as_str());
        }
        proof {
            assert(target@ =~= store_uri(profile@.user, host.target_host@, profile@.port));
        }
        let mut args: Vec<String> = Vec::new();
        args.push(String::from_str("copy"));
        args.push(String::from_str("--to"));
        args.push(target);
        args.push(closure.to_owned());
        let opts = build_ssh_opts(profile);
        let mut env: Vec<(String, String)> = Vec::new();
        env.push((String::from_str("NIX_SSHOPTS"), crate::text::join(&opts, " ")));
        proof {
            assert(views(args@) =~= seq![
                "copy"@,
                "--to"@,
                store_uri(profile@.user, host.target_host@, profile@.port),
                closure@,
            ]);
            assert(crate::process::env_view(env@) =~= seq![("NIX_SSHOPTS"@, joined(ssh_opts(profile@), " "@))]);
        }
        let copy = Invocation { program: String::from_str("nix"), args, env };
        let activate = Self::ssh_with(profile, host.target_host.as_str(), remote_cmd.as_str());
        Ok(RemoteDeployPlan { copy, activate })
    }

    /// Reads the store copy of a deployment to `host_name`.
    pub fn read_copy(host_name: &str, outcome: &Result<CommandOutput, SpawnError>) -> (r: Result<(), NodError>)
        ensures
            match outcome {
                Err(_) => r matches Err(e) && e.is(
                    ErrorClass::Deployment,
                    "Nix store copy over SSH failed: failed to launch `nix copy` for "@ + host_name@,
                ),
                Ok(out) => if out.success {
                    r is Ok
                } else {
                    r matches Err(e) && e.is(ErrorClass::Deployment, "Nix store copy over SSH failed: "@ + host_name@)
                },
            },
    {
        let mut d = String::from_str("failed to launch `nix copy` for ");
        d.append(host_name);
        proof {
            reveal_strlit("Nix store copy over SSH failed: ");
            reveal_strlit("failed to launch `nix copy` for ");
            reveal_strlit("Nix store copy over SSH failed: failed to launch `nix copy` for ");
            assert("Nix store copy over SSH failed: "@ + ("failed to launch `nix copy` for "@ + host_name@)
                =~= "Nix store copy over SSH failed: failed to launch `nix copy` for "@ + host_name@);
        }
        check_run(outcome, NodError::store_transfer(d.as_str()), NodError::store_transfer(host_name))
    }

    /// Reads the remote activation of a deployment to `host_name`.
    pub fn read_activation(host_name: &str, outcome: &Result<CommandOutput, SpawnError>) -> (r: Result<(), NodError>)
        ensures
            match outcome {
                Err(_) => r matches Err(e) && e.is(
                    ErrorClass::Deployment,
                    "failed to execute remote activation over SSH: failed to launch `ssh` for "@ + host_name@,
                ),
                Ok(out) => if out.success {
                    r is Ok
                } else {
                    r matches Err(e) && e.is(
                        ErrorClass::Deployment,
                        "failed to execute remote activation over SSH: "@ + host_name@,
                    )
                },
            },
    {
        let mut d = String::from_str("failed to launch `ssh` for ");
        d.append(host_name);
        proof {
            reveal_strlit("failed to execute remote activation over SSH: ");
            reveal_strlit("failed to launch `ssh` for ");
            reveal_strlit("failed to execute remote activation over SSH: failed to launch `ssh` for ");
            assert("failed to execute remote activation over SSH: "@ + ("failed to launch `ssh` for "@ + host_name@)
                =~= "failed to execute remote activation over SSH: failed to launch `ssh` for "@ + host_name@);
        }
        check_run(outcome, NodError::remote_activate(d.as_str()), NodError::remote_activate(host_name))
    }

    /// The runs of a remote rollback: a generation query over SSH, then
    /// `nixos-rebuild --rollback switch`.
    pub fn rollback_plan(host: &HostEntity, profile: &SshProfile) -> (p: RemoteRollbackPlan)
        ensures
            ssh_run(p.query, profile@, host.target_host@, "/nix/var/nix/profiles"@),
            ssh_run(p.rollback, profile@, host.target_host@, "nixos-rebuild --rollback switch"@),
    {
        RemoteRollbackPlan {
            query: Self::ssh_with(profile, host.target_host.as_str(), "/nix/var/nix/profiles"),
            rollback: Self::ssh_with(profile, host.target_host.as_str(), "nixos-rebuild --rollback switch"),
        }
    }

    /// Reads the generation query of a rollback of `host_name`.
    pub fn read_rollback_query(host_name: &str, outcome: &Result<CommandOutput, SpawnError>) -> (r: Result<(), NodError>)
        ensures
            match outcome {
                Err(_) => r matches Err(e) && e.is(
                    ErrorClass::Deployment,
                    "rollback failed: failed to query remote generations for "@ + host_name@,
                ),
                Ok(out) => if out.success {
                    r is Ok
                } else {
                    r matches Err(e) && e.is(
                        ErrorClass::Deployment,
                        "rollback failed: remote generation query failed for "@ + host_name@,
                    )
                },
            },
    {
        let mut a = String::from_str("failed to query remote generations for ");
        a.append(host_name);
        let mut b = String::from_str("remote generation query failed for ");
        b.append(host_name);
        proof {
            reveal_strlit("rollback failed: ");
            reveal_strlit("failed to query remote generations for ");
            reveal_strlit("remote generation query failed for ");
            reveal_strlit("rollback failed: failed to query remote generations for ");
            reveal_strlit("rollback failed: remote generation query failed for ");
            assert("rollback failed: "@ + ("failed to query remote generations for "@ + host_name@)
                =~= "rollback failed: failed to query remote generations for "@ + host_name@);
            assert("rollback failed: "@ + ("remote generation query failed for "@ + host_name@)
                =~= "rollback failed: remote generation query failed for "@ + host_name@);
        }
        check_run(outcome, NodError::rollback_failure(a.as_str()), NodError::rollback_failure(b.as_str()))
    }

    /// Reads the switch back of a rollback of `host_name`.
    pub fn read_rollback(host_name: &str, outcome: &Result<CommandOutput, SpawnError>) -> (r: Result<(), NodError>)
        ensures
            match outcome {
                Err(_) => r matches Err(e) && e.is(
                    ErrorClass::Deployment,
                    "rollback failed: failed to launch ssh rollback for "@ + host_name@,
                ),
                Ok(out) => if out.success {
                    r is Ok
                } else {
                    r matches Err(e) && e.is(ErrorClass::Deployment, "rollback failed: "@ + host_name@)
                },
            },
    {
        let mut a = String::from_str("failed to launch ssh rollback for ");
        a.append(host_name);
        proof {
            reveal_strlit("rollback failed: ");
            reveal_strlit("failed to launch ssh rollback for ");
            reveal_strlit("rollback failed: failed to launch ssh rollback for ");
            assert("rollback failed: "@ + ("failed to launch ssh rollback for "@ + host_name@)
                =~= "rollback failed: failed to launch ssh rollback for "@ + host_name@);
        }
        check_run(outcome, NodError::rollback_failure(a.as_str()), NodError::rollback_failure(host_name))
    }

    /// `ssh ... "sudo systemctl reboot || sudo reboot"`; its outcome is not
    /// read, since the connection usually drops as the host goes down.
    pub fn reboot_invocation(host: &HostEntity, profile: &SshProfile) -> (inv: Invocation)
        ensures
            ssh_run(inv, profile@, host.target_host@, "sudo systemctl reboot || sudo reboot"@),
    {
        Self::ssh_with(profile, host.target_host.as_str(), "sudo systemctl reboot || sudo reboot")
    }

    /// `ssh ... "stat -c '%n %Y %N' /nix/var/nix/profiles/system* 2>/dev/null || true"`.
    pub fn generations_invocation(host: &HostEntity, profile: &SshProfile) -> (inv: Invocation)
        ensures
            ssh_run(
                inv,
                profile@,
                host.target_host@,
                "stat -c '%n %Y %N' /nix/var/nix/profiles/system* 2>/dev/null || true"@,
            ),
    {
        Self::ssh_with(profile, host.target_host.as_str(), "stat -c '%n %Y %N' /nix/var/nix/profiles/system* 2>/dev/null || true")
    }

    /// The remote garbage collection command for `options`.
    pub fn gc_command(options: &GcOptions) -> (c: String)
        ensures
            c@ == remote_gc_command(*options),
    {
        let dry: &str = if options.dry_run { " --dry-run" } else { "" };
        match options.keep {
            Some(k) => {
                let mut c = String::from_str("sudo nix-env -p /nix/var/nix/profiles/system --delete-generations +");
                c.append(decimal_string(k as u64).as_str());
                c.append(" && sudo nix-collect-garbage");
                c.append(dry);
                c
            },
            None => match &options.older_than {
                Some(o) => {
                    let mut c = String::from_str("sudo nix-collect-garbage --delete-older-than ");
                    c.append(o.as_str());
                    c.append(dry);
                    c
                },
                None => {
                    let mut c = String::from_str("sudo nix-collect-garbage -d");
                    c.append(dry);
                    c
                },
            },
        }
    }

    /// `ssh` running the remote garbage collection for `options`.
    pub fn gc_invocation(host: &HostEntity, profile: &SshProfile, options: &GcOptions) -> (inv: Invocation)
        ensures
            ssh_run(inv, profile@, host.target_host@, remote_gc_command(*options)),
    {
        let c = Self::gc_command(options);
        Self::ssh_with(profile, host.target_host.as_str(), c.as_str())
    }
}

/// `nix copy [--to <to>] [--from <from>] <closure>`.
pub open spec fn copy_args(to: Option<Seq<char>>, from: Option<Seq<char>>, closure: Seq<char>) -> Seq<Seq<char>> {
    seq!["copy"@] + (match to {
        Some(t) => seq!["--to"@, t],
        None => Seq::empty(),
    }) + (match from {
        Some(f) => seq!["--from"@, f],
        None => Seq::empty(),
    }) + seq![closure]
}

/// `nix copy` with the given stores and closure.
fn copy_invocation(to: Option<&str>, from: Option<&str>, closure: &str) -> (inv: Invocation)
    ensures
        runs(
            inv,
            (
                "nix"@,
                copy_args(
                    match to {
                        Some(t) => Some(t@),
                        None => None,
                    },
                    match from {
                        Some(f) => Some(f@),
                        None => None,
                    },
                    closure@,
                ),
            ),
        ),
{
    let mut args: Vec<String> = Vec::new();
    args.push(String::from_str("copy"));
    let ghost a = views(args@);
    match to {
        Some(t) => {
            args.push(String::from_str("--to"));
            args.push(t.to_owned());
        },
        None => {},
    }
    let ghost b = views(args@);
    match from {
        Some(f) => {
            args.push(String::from_str("--from"));
            args.push(f.to_owned());
        },
        None => {},
    }
    let ghost c = views(args@);
    args.push(closure.to_owned());
    proof {
        let tv = match to {
            Some(t) => Some(t@),
            None => None,
        };
        let fv = match from {
            Some(f) => Some(f@),
            None => None,
        };
        assert(a =~= seq!["copy"@]);
        assert(b =~= a + match tv {
            Some(t) => seq!["--to"@, t],
            None => Seq::<Seq<char>>::empty(),
        });
        assert(c =~= b + match fv {
            Some(f) => seq!["--from"@, f],
            None => Seq::<Seq<char>>::empty(),
        });
        assert(views(args@) =~= c.push(closure@));
        assert(views(args@) =~= copy_args(tv, fv, closure@));
    }
    Invocation::new("nix", args)
}

/// The copy report of `host_name` for `closure` after the copy run.
fn copy_report(host_name: &str, closure: &str, outcome: &Result<CommandOutput, SpawnError>, spawn_error: NodError) -> (r: Result<CopyReport, NodError>)
    ensures
        match outcome {
            Err(_) => r == Err::<CopyReport, NodError>(spawn_error),
            Ok(out) => r matches Ok(rep) && rep.host_name@ == host_name@ && rep.closure_path@ == closure@
                && rep.success == out.success,
        },
{
    match outcome {
        Err(_) => Err(spawn_error),
        Ok(out) => Ok(CopyReport { host_name: host_name.to_owned(), closure_path: closure.to_owned(), success: out.success }),
    }
}

impl LocalDeployer {
    /// `nix copy` of `closure` between the stores of `options`.
    pub fn copy_invocation(closure: &str, options: &CopyOptions) -> (inv: Invocation)
        ensures
            runs(inv, ("nix"@, copy_args(crate::text::opt_view(options.to), crate::text::opt_view(options.from), closure@))),
    {
        let to = match &options.to {
            Some(t) => Some(t.as_str()),
            None => None,
        };
        let from = match &options.from {
            Some(f) => Some(f.as_str()),
            None => None,
        };
        copy_invocation(to, from, closure)
    }

    /// Reads a local copy run of `closure` for `host_name`.
    pub fn read_copy(host_name: &str, closure: &str, outcome: &Result<CommandOutput, SpawnError>) -> (r: Result<CopyReport, NodError>)
        ensures
            match outcome {
                Err(e) => r matches Err(x) && x.is(
                    ErrorClass::Deployment,
                    "failed to execute nix copy: "@ + e.message@,
                ),
                Ok(out) => r matches Ok(rep) && rep.host_name@ == host_name@ && rep.closure_path@ == closure@
                    && rep.success == out.success,
            },
    {
        let spawn = match outcome {
            Err(e) => {
                let mut d = String::from_str("failed to execute nix copy: ");
                d.append(e.message.as_str());
                NodError::deployment(d.as_str())
            },
            Ok(_) => NodError::deployment(""),
        };
        copy_report(host_name, closure, outcome, spawn)
    }

    /// Reads the local garbage collection run of `host_name`.
    pub fn read_gc(host_name: &str, outcome: &Result<CommandOutput, SpawnError>) -> (r: Result<GcReport, NodError>)
        ensures
            match outcome {
                Err(e) => r matches Err(x) && x.is(
                    ErrorClass::Deployment,
                    "failed to execute nix-collect-garbage: "@ + e.message@,
                ),
                Ok(out) => r matches Ok(rep) && rep.host_name@ == host_name@ && rep.success == out.success
                    && rep.output_summary@ == gc_summary(*out),
            },
    {
        let spawn = match outcome {
            Err(e) => {
                let mut d = String::from_str("failed to execute nix-collect-garbage: ");
                d.append(e.message.as_str());
                NodError::deployment(d.as_str())
            },
            Ok(_) => NodError::deployment(""),
        };
        gc_report(host_name, outcome, spawn)
    }

    /// Reads the generation listing: a failure to start is an evaluation
    /// error; otherwise the output is parsed as `stat` lines.
    pub fn read_generations(outcome: &Result<CommandOutput, SpawnError>) -> (r: Result<Vec<crate::generation::SystemGeneration>, NodError>)
        ensures
            match outcome {
                Err(e) => r matches Err(x) && x.is(
                    ErrorClass::Evaluation,
                    "failed to stat system profiles: "@ + e.message@,
                ),
                Ok(out) => r matches Ok(g) && crate::generation::generation_views(g@)
                    == crate::generation::stat_generations(out.stdout@),
            },
    {
        match outcome {
            Err(e) => {
                let mut d = String::from_str("failed to stat system profiles: ");
                d.append(e.message.as_str());
                Err(NodError::evaluation(d.as_str()))
            },
            Ok(out) => Ok(crate::generation::parse_system_profiles_stat_output(out.stdout.as_str())),
        }
    }
}

impl SshCliDeployer {
    /// `nix copy` of `closure` for `host`: to `options.to`, else to the
    /// host's store over SSH (`ssh://<user>@<host>`), from `options.from`.
    pub fn copy_invocation(host: &HostEntity, profile: &SshProfile, closure: &str, options: &CopyOptions) -> (inv: Invocation)
        ensures
            runs(
                inv,
                (
                    "nix"@,
                    copy_args(
                        Some(match options.to {
                            Some(t) => t@,
                            None => "ssh://"@ + profile@.user + "@"@ + host.target_host@,
                        }),
                        crate::text::opt_view(options.from),
                        closure@,
                    ),
                ),
            ),
    {
        let to: String = match &options.to {
            Some(t) => t.clone(),
            None => {
                let mut u = String::from_str("ssh://");
                u.append(profile.user());
                u.append("@");
                u.append(host.target_host.as_str());
                u
            },
        };
        let from = match &options.from {
            Some(f) => Some(f.as_str()),
            None => None,
        };
        copy_invocation(Some(to.as_str()), from, closure)
    }

    /// Reads a copy run over SSH of `closure` for `host_name`.
    pub fn read_copy_closure(host_name: &str, closure: &str, outcome: &Result<CommandOutput, SpawnError>) -> (r: Result<CopyReport, NodError>)
        ensures
            match outcome {
                Err(e) => r matches Err(x) && x.is(
                    ErrorClass::Deployment,
                    "failed to execute nix copy over SSH: "@ + e.message@,
                ),
                Ok(out) => r matches Ok(rep) && rep.host_name@ == host_name@ && rep.closure_path@ == closure@
                    && rep.success == out.success,
            },
    {
        let spawn = match outcome {
            Err(e) => {
                let mut d = String::from_str("failed to execute nix copy over SSH: ");
                d.append(e.message.as_str());
                NodError::deployment(d.as_str())
            },
            Ok(_) => NodError::deployment(""),
        };
        copy_report(host_name, closure, outcome, spawn)
    }

    /// Reads the remote garbage collection run of `host_name`.
    pub fn read_gc(host_name: &str, outcome: &Result<CommandOutput, SpawnError>) -> (r: Result<GcReport, NodError>)
        ensures
            match outcome {
                Err(_) => r matches Err(x) && x.is(
                    ErrorClass::Deployment,
                    "failed to execute remote garbage collection on "@ + host_name@,
                ),
                Ok(out) => r matches Ok(rep) && rep.host_name@ == host_name@ && rep.success == out.success
                    && rep.output_summary@ == gc_summary(*out),
            },
    {
        let mut d = String::from_str("failed to execute remote garbage collection on ");
        d.append(host_name);
        gc_report(host_name, outcome, NodError::deployment(d.as_str()))
    }

    /// Reads the remote generation listing of `host_name`.
    pub fn read_generations(host_name: &str, outcome: &Result<CommandOutput, SpawnError>) -> (r: Result<Vec<crate::generation::SystemGeneration>, NodError>)
        ensures
            match outcome {
                Err(_) => r matches Err(x) && x.is(
                    ErrorClass::HealthCheck,
                    "failed to query generations over SSH for "@ + host_name@,
                ),
                Ok(out) => r matches Ok(g) && crate::generation::generation_views(g@)
                    == crate::generation::stat_generations(out.stdout@),
            },
    {
        match outcome {
            Err(_) => {
                let mut d = String::from_str("failed to query generations over SSH for ");
                d.append(host_name);
                Err(NodError::healthcheck(d.as_str()))
            },
            Ok(out) => Ok(crate::generation::parse_system_profiles_stat_output(out.stdout.as_str())),
        }
    }
}

/// The error text of a failed run: its trimmed error output, or the failure
/// to start prefixed with `spawn_prefix`.
pub open spec fn failure_text(outcome: Result<CommandOutput, SpawnError>, spawn_prefix: Seq<char>) -> Seq<char> {
    match outcome {
        Ok(out) => trimmed(out.stderr@),
        Err(e) => spawn_prefix + e.message@,
    }
}

/// The run succeeded.
pub open spec fn run_ok(outcome: Result<CommandOutput, SpawnError>) -> bool {
    outcome matches Ok(out) && out.success
}

/// The error of a run that did not succeed.
fn failure_of(outcome: &Result<CommandOutput, SpawnError>, spawn_prefix: &str) -> (r: Option<String>)
    ensures
        run_ok(*outcome) ==> r is None,
        !run_ok(*outcome) ==> (r matches Some(m) && m@ == failure_text(*outcome, spawn_prefix@)),
{
    match outcome {
        Ok(out) => if out.success {
            None
        } else {
            Some(trim(out.stderr.as_str()).to_owned())
        },
        Err(e) => {
            let mut m = spawn_prefix.to_owned();
            m.append(e.message.as_str());
            Some(m)
        },
    }
}

impl SshCliDeployer {
    /// `ssh ... "sudo nix-store --optimise || nix-store --optimise"`.
    pub fn optimize_invocation(host: &HostEntity, profile: &SshProfile) -> (inv: Invocation)
        ensures
            ssh_run(inv, profile@, host.target_host@, "sudo nix-store --optimise || nix-store --optimise"@),
    {
        Self::ssh_with(profile, host.target_host.as_str(), "sudo nix-store --optimise || nix-store --optimise")
    }

    /// The optimisation report of `host_name` after the run.
    pub fn optimize_report(host_name: &str, outcome: &Result<CommandOutput, SpawnError>) -> (r: crate::cache::StoreOptimizeReport)
        ensures
            r.host_name@ == host_name@,
            r.ok == run_ok(*outcome),
            r.freed_bytes is None,
            run_ok(*outcome) ==> r.error is None,
            !run_ok(*outcome) ==> (r.error matches Some(m) && m@ == failure_text(
                *outcome,
                "failed to run remote nix-store --optimise: "@,
            )),
    {
        let error = failure_of(outcome, "failed to run remote nix-store --optimise: ");
        crate::cache::StoreOptimizeReport {
            host_name: host_name.to_owned(),
            ok: error.is_none(),
            freed_bytes: None,
            error,
        }
    }

    /// `nix copy --to <cache> <closure>`.
    pub fn push_invocation(closure: &str, cache_uri: &str) -> (inv: Invocation)
        ensures
            runs(inv, ("nix"@, seq!["copy"@, "--to"@, cache_uri@, closure@])),
    {
        let mut args: Vec<String> = Vec::new();
        args.push(String::from_str("copy"));
        args.push(String::from_str("--to"));
        args.push(cache_uri.to_owned());
        args.push(closure.to_owned());
        proof {
            assert(views(args@) =~= seq!["copy"@, "--to"@, cache_uri@, closure@]);
        }
        Invocation::new("nix", args)
    }

    /// The cache push report of `host_name` after the run.
    pub fn push_report(host_name: &str, closure: &str, cache_uri: &str, outcome: &Result<CommandOutput, SpawnError>) -> (r: crate::cache::CachePushReport)
        ensures
            r.host_name@ == host_name@,
            r.closure_path@ == closure@,
            r.cache_uri@ == cache_uri@,
            r.ok == run_ok(*outcome),
            run_ok(*outcome) ==> r.error is None,
            !run_ok(*outcome) ==> (r.error matches Some(m) && m@ == failure_text(
                *outcome,
                "failed to launch nix copy to cache: "@,
            )),
    {
        let error = failure_of(outcome, "failed to launch nix copy to cache: ");
        crate::cache::CachePushReport {
            host_name: host_name.to_owned(),
            closure_path: closure.to_owned(),
            cache_uri: cache_uri.to_owned(),
            ok: error.is_none(),
            error,
        }
    }
}

impl TokioSshDeployer {
    /// `ping -c 1 -W 2 <host>`: the host is reachable when the ping succeeds.
    pub fn ping_invocation(host: &HostEntity) -> (inv: Invocation)
        ensures
            runs(inv, ("ping"@, seq!["-c"@, "1"@, "-W"@, "2"@, host.target_host@])),
    {
        let mut args: Vec<String> = Vec::new();
        args.push(String::from_str("-c"));
        args.push(String::from_str("1"));
        args.push(String::from_str("-W"));
        args.push(String::from_str("2"));
        args.push(host.target_host.clone());
        proof {
            assert(views(args@) =~= seq!["-c"@, "1"@, "-W"@, "2"@, host.target_host@]);
        }
        Invocation::new("ping", args)
    }
}

/// The runs of a plain activation of `host` with `closure`: on the local
/// host `sudo <closure>/bin/switch-to-configuration switch`; on a remote
/// host `nix copy --to ssh://root@<target> <closure>`, then `ssh
/// root@<target> "<closure>/bin/switch-to-configuration switch"`.
pub open spec fn plain_activation(host: HostEntity, closure: Seq<char>) -> Seq<(Seq<char>, Seq<Seq<char>>)> {
    if host.is_local {
        seq![("sudo"@, seq![switch_bin(closure), "switch"@])]
    } else {
        seq![
            ("nix"@, seq!["copy"@, "--to"@, "ssh://root@"@ + host.target_host@, closure]),
            ("ssh"@, seq!["root@"@ + host.target_host@, switch_bin(closure) + " switch"@]),
        ]
    }
}

/// How many runs a plain activation of `host` takes.
pub open spec fn plain_step_count(host: HostEntity) -> nat {
    if host.is_local {
        1
    } else {
        2
    }
}

/// What step `step` of a plain activation of `host` failing means: the run
/// could not start, or it reported failure.
pub open spec fn plain_step_failure(host: HostEntity, step: int, launched: bool) -> Seq<char> {
    if host.is_local {
        if launched {
            "Local configuration activation failed."@
        } else {
            "Failed to activate local NixOS configuration"@
        }
    } else if step == 0 {
        if launched {
            "Nix store copy over SSH failed for "@ + host.name@
        } else {
            "Failed to copy closure over SSH"@
        }
    } else if launched {
        "Remote activation failed for "@ + host.name@
    } else {
        "Failed to execute remote activation over SSH"@
    }
}

impl TokioSshDeployer {
    /// The runs of activating `closure` on `host` (`switch`), in order; a
    /// run that fails stops the activation (see [`Self::read_step`]).
    pub fn activation_runs(host: &HostEntity, closure: &str) -> (v: Vec<Invocation>)
        ensures
            v@.len() == plain_activation(*host, closure@).len(),
            v@.len() == plain_step_count(*host),
            forall|i: int| 0 <= i < v@.len() ==> runs(#[trigger] v@[i], plain_activation(*host, closure@)[i]),
    {
        proof {
            reveal_strlit("bin/switch-to-configuration");
        }
        let bin = crate::text::join_path(closure, "bin/switch-to-configuration");
        let mut v: Vec<Invocation> = Vec::new();
        if host.is_local {
            v.push(Invocation::new("sudo", two(bin.as_str(), "switch")));
        } else {
            let mut uri = String::from_str("ssh://root@");
            uri.append(host.target_host.as_str());
            let mut copy_args: Vec<String> = Vec::new();
            copy_args.push(String::from_str("copy"));
            copy_args.push(String::from_str("--to"));
            copy_args.push(uri);
            copy_args.push(closure.to_owned());
            proof {
                assert(views(copy_args@) =~= seq!["copy"@, "--to"@, "ssh://root@"@ + host.target_host@, closure@]);
            }
            v.push(Invocation::new("nix", copy_args));
            let mut dest = String::from_str("root@");
            dest.append(host.target_host.as_str());
            let mut cmd = bin;
            cmd.append(" switch");
            v.push(Invocation::new("ssh", two(dest.as_str(), cmd.as_str())));
        }
        v
    }

    /// Reads run `step` of an activation of `host`: success, or the failure
    /// text for a run that could not start or that failed.
    pub fn read_step(host: &HostEntity, step: usize, outcome: &Result<CommandOutput, SpawnError>) -> (r: Result<(), String>)
        requires
            step < plain_step_count(*host),
        ensures
            match outcome {
                Ok(out) => if out.success {
                    r is Ok
                } else {
                    r matches Err(m) && m@ == plain_step_failure(*host, step as int, true)
                },
                Err(_) => r matches Err(m) && m@ == plain_step_failure(*host, step as int, false),
            },
    {
        let launched = match outcome {
            Ok(out) => {
                if out.success {
                    return Ok(());
                }
                true
            },
            Err(_) => false,
        };
        let text = if host.is_local {
            if launched {
                String::from_str("Local configuration activation failed.")
            } else {
                String::from_str("Failed to activate local NixOS configuration")
            }
        } else if step == 0 {
            if launched {
                let mut m = String::from_str("Nix store copy over SSH failed for ");
                m.append(host.name.as_str());
                m
            } else {
                String::from_str("Failed to copy closure over SSH")
            }
        } else if launched {
            let mut m = String::from_str("Remote activation failed for ");
            m.append(host.name.as_str());
            m
        } else {
            String::from_str("Failed to execute remote activation over SSH")
        };
        Err(text)
    }
}

} // verus!
