//! Bare-metal provisioning with `nixos-anywhere`, installer ISO builds and
//! the flake templates of `nod init`.

use vstd::prelude::*;
use crate::host::HostEntity;
use crate::process::{CommandOutput, Invocation, SpawnError};
use crate::text::{ascii_lower_seq, decimal, decimal_string, trim, trimmed, views};

verus! {

/// Options of a `nixos-anywhere` bootstrap.
#[derive(Debug, Clone, PartialEq, Eq)]
pub struct BootstrapOptions {
    /// Address of the machine booted into an installer.
    pub target_ip: String,
    pub ssh_user: String,
    pub ssh_port: u16,
    /// Partition the disks with disko.
    pub disko: bool,
    /// Skip the kexec into the installer.
    pub no_kexec: bool,
    pub debug: bool,
}

impl Default for BootstrapOptions {
    fn default() -> (r: BootstrapOptions)
        ensures
            r.target_ip@.len() == 0 && r.ssh_user@ == "root"@ && r.ssh_port == 22 && r.disko && !r.no_kexec
                && !r.debug,
    {
        BootstrapOptions {
            target_ip: String::new(),
            ssh_user: String::from_str("root"),
            ssh_port: 22,
            disko: true,
            no_kexec: false,
            debug: false,
        }
    }
}

/// Outcome of a bootstrap.
#[derive(Debug, Clone, PartialEq, Eq)]
pub struct BootstrapReport {
    pub host_name: String,
    pub target_ip: String,
    pub ok: bool,
    pub error: Option<String>,
}

/// The flake template `nod init` writes.
#[derive(Debug, Clone, Copy, PartialEq, Eq, Structural)]
pub enum InitTemplate {
    Minimal,
    Fleet,
    Server,
}

/// Options of `nod init`.
#[derive(Debug, Clone, PartialEq, Eq)]
pub struct InitOptions {
    pub target_dir: String,
    pub template: InitTemplate,
    pub flake_name: String,
}

/// Options of an installer image build.
#[derive(Debug, Clone, PartialEq, Eq)]
pub struct IsoOptions {
    pub target_format: String,
}

impl Default for IsoOptions {
    fn default() -> (r: IsoOptions)
        ensures
            r.target_format@ == "iso"@,
    {
        IsoOptions { target_format: String::from_str("iso") }
    }
}

/// Outcome of an installer image build.
#[derive(Debug, Clone, PartialEq, Eq)]
pub struct IsoReport {
    pub host_name: String,
    pub out_path: String,
    pub ok: bool,
    pub error: Option<String>,
}

/// The template an ASCII-lower-cased name denotes, or the error text.
pub open spec fn template_named(lowered: Seq<char>) -> Result<InitTemplate, Seq<char>> {
    if lowered == "minimal"@ {
        Ok(InitTemplate::Minimal)
    } else if lowered == "fleet"@ {
        Ok(InitTemplate::Fleet)
    } else if lowered == "server"@ {
        Ok(InitTemplate::Server)
    } else {
        Err("unknown init template: '"@ + lowered + "' (expected: minimal, fleet, server)"@)
    }
}

/// Lower-cases the ASCII letters of `s` (`str::to_ascii_lowercase`).
pub fn ascii_lowercase(s: &str) -> (r: String)
    ensures
        r@ == ascii_lower_seq(s@),
{
    let cs = crate::text::chars_of(s);
    let mut out: Vec<char> = Vec::new();
    let mut i: usize = 0;
    while i < cs.len()
        invariant
            i <= cs@.len(),
            out@ == ascii_lower_seq(cs@.take(i as int)),
        decreases cs@.len() - i,
    {
        out.push(crate::text::to_ascii_lower(cs[i]));
        proof {
            assert(ascii_lower_seq(cs@.take(i as int + 1)) =~= ascii_lower_seq(cs@.take(i as int)).push(
                crate::text::ascii_lower(cs@[i as int]),
            ));
        }
        i += 1;
    }
    proof {
        assert(cs@.take(cs@.len() as int) =~= cs@);
    }
    crate::text::string_of(out.as_slice())
}

impl InitTemplate {
    /// Parses a template name without regard to ASCII case.
    pub fn parse(s: &str) -> (r: Result<InitTemplate, String>)
        ensures
            match template_named(ascii_lower_seq(s@)) {
                Ok(t) => r == Ok::<InitTemplate, String>(t),
                Err(m) => r matches Err(x) && x@ == m,
            },
    {
        let lowered = ascii_lowercase(s);
        proof {
            reveal_strlit("minimal");
            reveal_strlit("fleet");
            reveal_strlit("server");
        }
        if crate::text::str_eq(lowered.as_str(), "minimal") {
            Ok(InitTemplate::Minimal)
        } else if crate::text::str_eq(lowered.as_str(), "fleet") {
            Ok(InitTemplate::Fleet)
        } else if crate::text::str_eq(lowered.as_str(), "server") {
            Ok(InitTemplate::Server)
        } else {
            let mut m = String::from_str("unknown init template: '");
            m.append(lowered.as_str());
            m.append("' (expected: minimal, fleet, server)");
            Err(m)
        }
    }
}

impl std::str::FromStr for InitTemplate {
    type Err = String;

    fn from_str(s: &str) -> (r: Result<InitTemplate, String>)
        ensures
            match template_named(ascii_lower_seq(s@)) {
                Ok(t) => r == Ok::<InitTemplate, String>(t),
                Err(m) => r matches Err(x) && x@ == m,
            },
    {
        InitTemplate::parse(s)
    }
}

/// Provisions bare-metal nodes with `nixos-anywhere` and builds installer
/// images.
#[derive(Debug, Clone, Copy, PartialEq, Eq, Default)]
pub struct NixosAnywhereProvisioner;

/// The `nixos-anywhere` arguments of a bootstrap of `host` from `flake`.
pub open spec fn bootstrap_args(flake: Seq<char>, host: Seq<char>, o: BootstrapOptions) -> Seq<Seq<char>> {
    seq!["--flake"@, flake + "#"@ + host] + (if !o.disko {
        seq!["--no-disko"@]
    } else {
        Seq::empty()
    }) + (if o.no_kexec {
        seq!["--no-kexec"@]
    } else {
        Seq::empty()
    }) + (if o.debug {
        seq!["--debug"@]
    } else {
        Seq::empty()
    }) + (if o.ssh_port != 22 {
        seq!["--ssh-port"@, decimal(o.ssh_port as nat)]
    } else {
        Seq::empty()
    }) + seq![o.ssh_user@ + "@"@ + o.target_ip@]
}

/// The error a run leaves: its trimmed error output, a missing-tool hint,
/// or the failure to start.
pub open spec fn bootstrap_error(outcome: Result<CommandOutput, SpawnError>) -> Option<Seq<char>> {
    match outcome {
        Ok(out) => if out.success {
            None
        } else {
            Some(trimmed(out.stderr@))
        },
        Err(e) => if e.not_found {
            Some(
                "nixos-anywhere command not found in PATH (install nixos-anywhere to bootstrap bare-metal nodes)"@,
            )
        } else {
            Some("failed to spawn nixos-anywhere: "@ + e.message@)
        },
    }
}

impl NixosAnywhereProvisioner {
    /// Creates the provisioner.
    pub fn new() -> (r: NixosAnywhereProvisioner) {
        NixosAnywhereProvisioner
    }

    /// `nixos-anywhere --flake <flake>#<host> [flags] <user>@<ip>`.
    pub fn bootstrap_invocation(host: &HostEntity, flake_path: &str, options: &BootstrapOptions) -> (inv: Invocation)
        ensures
            inv.program@ == "nixos-anywhere"@,
            views(inv.args@) == bootstrap_args(flake_path@, host.name@, *options),
            inv.env@.len() == 0,
    {
        let mut attr = flake_path.to_owned();
        attr.append("#");
        attr.append(host.name.as_str());
        let mut args: Vec<String> = Vec::new();
        args.push(String::from_str("--flake"));
        args.push(attr);
        let ghost a = views(args@);
        if !options.disko {
            args.push(String::from_str("--no-disko"));
        }
        let ghost b = views(args@);
        if options.no_kexec {
            args.push(String::from_str("--no-kexec"));
        }
        let ghost c = views(args@);
        if options.debug {
            args.push(String::from_str("--debug"));
        }
        let ghost d = views(args@);
        if options.ssh_port != 22 {
            args.push(String::from_str("--ssh-port"));
            args.push(decimal_string(options.ssh_port as u64));
        }
        let ghost e = views(args@);
        let mut target = options.ssh_user.clone();
        target.append("@");
        target.append(options.target_ip.as_str());
        args.push(target);
        proof {
            assert(a =~= seq!["--flake"@, flake_path@ + "#"@ + host.name@]);
            assert(b =~= a + if !options.disko { seq!["--no-disko"@] } else { Seq::empty() });
            assert(c =~= b + if options.no_kexec { seq!["--no-kexec"@] } else { Seq::empty() });
            assert(d =~= c + if options.debug { seq!["--debug"@] } else { Seq::empty() });
            assert(e =~= d + if options.ssh_port != 22 {
                seq!["--ssh-port"@, decimal(options.ssh_port as nat)]
            } else {
                Seq::empty()
            });
            assert(views(args@) =~= e.push(options.ssh_user@ + "@"@ + options.target_ip@));
        }
        Invocation::new("nixos-anywhere", args)
    }

    /// The bootstrap report of `host` after the run.
    pub fn bootstrap_report(host: &HostEntity, options: &BootstrapOptions, outcome: &Result<CommandOutput, SpawnError>) -> (r: BootstrapReport)
        ensures
            r.host_name@ == host.name@,
            r.target_ip@ == options.target_ip@,
            r.ok == bootstrap_error(*outcome) is None,
            crate::text::opt_view(r.error) == bootstrap_error(*outcome),
    {
        let error: Option<String> = match outcome {
            Ok(out) => if out.success {
                None
            } else {
                Some(trim(out.stderr.as_str()).to_owned())
            },
            Err(e) => if e.not_found {
                Some(
                    String::from_str(
                        "nixos-anywhere command not found in PATH (install nixos-anywhere to bootstrap bare-metal nodes)",
                    ),
                )
            } else {
                let mut m = String::from_str("failed to spawn nixos-anywhere: ");
                m.append(e.message.as_str());
                Some(m)
            },
        };
        BootstrapReport {
            host_name: host.name.clone(),
            target_ip: options.target_ip.clone(),
            ok: error.is_none(),
            error,
        }
    }

    /// `nix build <flake>#nixosConfigurations.<host>.config.system.build.isoImage
    /// --print-out-paths --no-link`.
    pub fn iso_invocation(host: &HostEntity, flake_path: &str) -> (inv: Invocation)
        ensures
            inv.program@ == "nix"@,
            views(inv.args@) == seq![
                "build"@,
                flake_path@ + "#nixosConfigurations."@ + host.name@ + ".config.system.build.isoImage"@,
                "--print-out-paths"@,
                "--no-link"@,
            ],
            inv.env@.len() == 0,
    {
        let mut attr = flake_path.to_owned();
        attr.append("#nixosConfigurations.");
        attr.append(host.name.as_str());
        attr.append(".config.system.build.isoImage");
        let mut args: Vec<String> = Vec::new();
        args.push(String::from_str("build"));
        args.push(attr);
        args.push(String::from_str("--print-out-paths"));
        args.push(String::from_str("--no-link"));
        proof {
            assert(views(args@) =~= seq![
                "build"@,
                flake_path@ + "#nixosConfigurations."@ + host.name@ + ".config.system.build.isoImage"@,
                "--print-out-paths"@,
                "--no-link"@,
            ]);
        }
        Invocation::new("nix", args)
    }

    /// The image build report of `host` after the run: the trimmed printed
    /// path on success, the trimmed error output or the failure to start
    /// otherwise.
    pub fn iso_report(host: &HostEntity, outcome: &Result<CommandOutput, SpawnError>) -> (r: IsoReport)
        ensures
            r.host_name@ == host.name@,
            match outcome {
                Ok(out) => if out.success {
                    r.ok && r.out_path@ == trimmed(out.stdout@) && r.error is None
                } else {
                    !r.ok && r.out_path@.len() == 0 && crate::text::opt_view(r.error) == Some(trimmed(out.stderr@))
                },
                Err(e) => !r.ok && r.out_path@.len() == 0 && crate::text::opt_view(r.error) == Some(
                    "failed to execute nix build for ISO: "@ + e.message@,
                ),
            },
    {
        match outcome {
            Ok(out) => if out.success {
                IsoReport {
                    host_name: host.name.clone(),
                    out_path: trim(out.stdout.as_str()).to_owned(),
                    ok: true,
                    error: None,
                }
            } else {
                IsoReport {
                    host_name: host.name.clone(),
                    out_path: String::new(),
                    ok: false,
                    error: Some(trim(out.stderr.as_str()).to_owned()),
                }
            },
            Err(e) => {
                let mut m = String::from_str("failed to execute nix build for ISO: ");
                m.append(e.message.as_str());
                IsoReport { host_name: host.name.clone(), out_path: String::new(), ok: false, error: Some(m) }
            },
        }
    }
}

} // verus!
