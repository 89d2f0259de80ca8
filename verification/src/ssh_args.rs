//! `ssh(1)` argument construction from an [`SshProfile`].
//!
//! Both the `nod ssh`/`nod exec` command paths and the SSH transport consume
//! the same argument knowledge: connection flags are never derived in two
//! places. `SshProfile` is an already-resolved value; this module only maps
//! it to an argument vector.

use vstd::prelude::*;
use crate::host::{SshProfile, SshProfileView};
use crate::text::{decimal, decimal_string, views};

verus! {

/// The connection-multiplexing options every `ssh` invocation carries.
pub open spec fn control_opts() -> Seq<Seq<char>> {
    seq![
        "-o"@,
        "ControlMaster=auto"@,
        "-o"@,
        "ControlPath=/tmp/nod-ssh-%r@%h:%p"@,
        "-o"@,
        "ControlPersist=60s"@,
    ]
}

/// `flag` followed by `value` when `value` is present, else nothing.
pub open spec fn flag_opt(flag: Seq<char>, value: Option<Seq<char>>) -> Seq<Seq<char>> {
    match value {
        Some(v) => seq![flag, v],
        None => Seq::empty(),
    }
}

/// The connection-only `ssh` flags of a profile.
pub open spec fn ssh_opts(p: SshProfileView) -> Seq<Seq<char>> {
    control_opts() + (if p.port != 22 {
        seq!["-p"@, decimal(p.port as nat)]
    } else {
        Seq::empty()
    }) + flag_opt("-i"@, p.identity_file) + flag_opt("-J"@, p.proxy_jump) + p.extra_ssh_args
}

/// The full `ssh` argument vector for `profile`, `target_host`, `sudo` and
/// the remote `command`.
pub open spec fn ssh_args(p: SshProfileView, target_host: Seq<char>, sudo: bool, command: Seq<Seq<char>>) -> Seq<Seq<char>> {
    ssh_opts(p) + seq![p.user + "@"@ + target_host] + (if sudo {
        if command.len() == 0 {
            seq!["sudo"@, "-i"@]
        } else {
            seq!["sudo"@]
        }
    } else {
        Seq::empty()
    }) + command
}

/// Appends a copy of every string of `items` to `out`.
fn push_all(out: &mut Vec<String>, items: &Vec<String>)
    ensures
        views(final(out)@) == views(old(out)@) + views(items@),
{
    let mut i: usize = 0;
    let ghost start = views(out@);
    while i < items.len()
        invariant
            i <= items@.len(),
            views(out@) == start + views(items@).take(i as int),
        decreases items@.len() - i,
    {
        let ghost prev = out@;
        let item = items[i].clone();
        out.push(item);
        proof {
            assert(item@ == items@[i as int]@);
            assert(views(out@) =~= views(prev).push(items@[i as int]@));
            assert(views(items@).take(i as int + 1) =~= views(items@).take(i as int).push(items@[i as int]@));
            assert(views(out@) =~= start + views(items@).take(i as int + 1));
        }
        i += 1;
    }
    proof {
        assert(views(items@).take(items@.len() as int) =~= views(items@));
    }
}

/// Builds the connection-only `ssh(1)` flags for a profile: the
/// multiplexing options, `-p <port>` for a non-default port, `-i
/// <identity>` for an identity file, `-J <proxy>` for a proxy jump and any
/// `extra_ssh_args` verbatim. No target or remote command is appended. Used
/// both to assemble the full `ssh` argv and as the `NIX_SSHOPTS` value that
/// `nix copy --to ssh://` forwards to its internal ssh.
pub fn build_ssh_opts(profile: &SshProfile) -> (opts: Vec<String>)
    ensures
        views(opts@) == ssh_opts(profile@),
{
    let mut opts: Vec<String> = Vec::new();
    opts.push(String::from_str("-o"));
    opts.push(String::from_str("ControlMaster=auto"));
    opts.push(String::from_str("-o"));
    opts.push(String::from_str("ControlPath=/tmp/nod-ssh-%r@%h:%p"));
    opts.push(String::from_str("-o"));
    opts.push(String::from_str("ControlPersist=60s"));
    let ghost a = views(opts@);
    proof {
        assert(a =~= control_opts());
    }
    if profile.port() != 22 {
        opts.push(String::from_str("-p"));
        opts.push(decimal_string(profile.port() as u64));
    }
    let ghost b = views(opts@);
    proof {
        assert(b =~= control_opts() + (if profile@.port != 22 {
            seq!["-p"@, decimal(profile@.port as nat)]
        } else {
            Seq::empty()
        }));
    }
    match profile.identity_file() {
        Some(identity) => {
            opts.push(String::from_str("-i"));
            opts.push(identity.clone());
        },
        None => {},
    }
    let ghost c = views(opts@);
    proof {
        assert(c =~= b + flag_opt("-i"@, profile@.identity_file));
    }
    match profile.proxy_jump() {
        Some(proxy) => {
            opts.push(String::from_str("-J"));
            opts.push(proxy.to_owned());
        },
        None => {},
    }
    let ghost d = views(opts@);
    proof {
        assert(d =~= c + flag_opt("-J"@, profile@.proxy_jump));
    }
    push_all(&mut opts, profile.extra_ssh_args());
    opts
}

/// Builds the `ssh(1)` argument vector for one host profile: the connection
/// flags (see [`build_ssh_opts`]), the `user@host` target, an optional
/// `sudo` prefix and the trailing remote command verbatim. When `sudo` is
/// set and the command is empty an interactive root shell (`sudo -i`) is
/// requested.
pub fn build_ssh_args(profile: &SshProfile, target_host: &str, sudo: bool, command: &Vec<String>) -> (args: Vec<String>)
    ensures
        views(args@) == ssh_args(profile@, target_host@, sudo, views(command@)),
{
    let mut args = build_ssh_opts(profile);
    let mut target = profile.user().to_owned();
    target.append("@");
    target.append(target_host);
    args.push(target);
    let ghost a = views(args@);
    if sudo {
        args.push(String::from_str("sudo"));
        if command.len() == 0 {
            args.push(String::from_str("-i"));
        }
    }
    let ghost b = views(args@);
    proof {
        assert(a =~= ssh_opts(profile@) + seq![profile@.user + "@"@ + target_host@]);
        assert(b =~= a + (if sudo {
            if command@.len() == 0 {
                seq!["sudo"@, "-i"@]
            } else {
                seq!["sudo"@]
            }
        } else {
            Seq::empty()
        }));
    }
    push_all(&mut args, command);
    args
}

} // verus!
