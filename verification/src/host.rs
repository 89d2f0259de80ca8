//! Host entities and connection value objects.
//!
//! `HostEntity` is the long-lived entity describing a NixOS configurable
//! target. `HostRole`, `SshProfile`, `TargetHost` and `BuilderHost` are
//! immutable value objects derived from it: configuration methods on a
//! profile consume it and return a *new* profile.

use vstd::prelude::*;
use crate::config::NodConfig;
use crate::text::{clone_opt, clone_strings, eq_ignore_ascii_case, ascii_lower_seq, opt_view, views};

verus! {

/// What `str::to_lowercase` returns for `s` (Unicode lower-case mapping).
pub uninterp spec fn lowercase_of(s: Seq<char>) -> Seq<char>;

/// Lower-cases `s` through `str::to_lowercase`. The result is named
/// [`lowercase_of`]; beyond that it is claimed only that an all-ASCII input
/// is lower-cased letter by letter as `str::to_ascii_lowercase` does (the
/// Unicode lower-case mapping of an ASCII character is its ASCII one). The
/// mapping of other characters is left unstated.
#[verifier::external_body]
pub(crate) fn to_lowercase(s: &str) -> (r: String)
    ensures
        r@ == lowercase_of(s@),
        crate::text::all_ascii(s@) ==> r@ == ascii_lower_seq(s@),
{
    s.to_lowercase()
}

/// The functional role of a host within a fleet.
#[derive(Debug, Clone, PartialEq, Eq)]
pub enum HostRole {
    Desktop,
    Notebook,
    Server,
    Unknown(String),
}

/// Mathematical form of a [`HostRole`].
pub enum RoleView {
    Desktop,
    Notebook,
    Server,
    Unknown(Seq<char>),
}

impl View for HostRole {
    type V = RoleView;

    open spec fn view(&self) -> RoleView {
        match self {
            HostRole::Desktop => RoleView::Desktop,
            HostRole::Notebook => RoleView::Notebook,
            HostRole::Server => RoleView::Server,
            HostRole::Unknown(s) => RoleView::Unknown(s@),
        }
    }
}

/// The role a parse yields, given the lower-cased input and the raw input.
pub open spec fn role_from(lowered: Seq<char>, raw: Seq<char>) -> RoleView {
    if lowered == "desktop"@ {
        RoleView::Desktop
    } else if lowered == "notebook"@ {
        RoleView::Notebook
    } else if lowered == "server"@ {
        RoleView::Server
    } else {
        RoleView::Unknown(raw)
    }
}

/// The stable string form of a role.
pub open spec fn role_text(r: RoleView) -> Seq<char> {
    match r {
        RoleView::Desktop => "desktop"@,
        RoleView::Notebook => "notebook"@,
        RoleView::Server => "server"@,
        RoleView::Unknown(s) => s,
    }
}

/// What a parsed role prints: an unknown role prints its raw input
/// unchanged; a known role prints the lower-cased input, which is ASCII and
/// already ASCII lower-case, so lower-casing the printed form gives the
/// lower-cased input back.
pub proof fn lemma_role_text_of_parse(s: Seq<char>)
    ensures
        ({
            let r = role_from(lowercase_of(s), s);
            &&& r is Unknown ==> role_text(r) == s
            &&& !(r is Unknown) ==> {
                &&& role_text(r) == lowercase_of(s)
                &&& crate::text::all_ascii(role_text(r))
                &&& ascii_lower_seq(role_text(r)) == role_text(r)
            }
        }),
{
    reveal_strlit("desktop");
    reveal_strlit("notebook");
    reveal_strlit("server");
}

impl HostRole {
    /// Parses a flakeimpl HostRole {
    /// Parses a flake `deployment.role` string into a typed `HostRole`:
    /// the input is lower-cased with `str::to_lowercase` and matched against
    /// the known roles; anything else keeps the raw input as `Unknown`.
    pub fn parse(s: &str) -> (r: HostRole)
        ensures
            r@ == role_from(lowercase_of(s@), s@),
            crate::text::all_ascii(s@) ==> r@ == role_from(ascii_lower_seq(s@), s@),
    {
        let lowered = to_lowercase(s);
        Self::from_lowercased(lowered.as_str(), s)
    }

    /// The role named by an already lower-cased input `lowered`, keeping the
    /// raw input `raw` for an unknown role.
    pub fn from_lowercased(lowered: &str, raw: &str) -> (r: HostRole)
        ensures
            r@ == role_from(lowered@, raw@),
    {
        proof {
            reveal_strlit("desktop");
            reveal_strlit("notebook");
            reveal_strlit("server");
        }
        if crate::text::str_eq(lowered, "desktop") {
            HostRole::Desktop
        } else if crate::text::str_eq(lowered, "notebook") {
            HostRole::Notebook
        } else if crate::text::str_eq(lowered, "server") {
            HostRole::Server
        } else {
            HostRole::Unknown(raw.to_owned())
        }
    }

    /// Stable string form for persistence and display.
    pub fn to_str(&self) -> (s: String)
        ensures
            s@ == role_text(self@),
    {
        match self {
            HostRole::Desktop => String::from_str("desktop"),
            HostRole::Notebook => String::from_str("notebook"),
            HostRole::Server => String::from_str("server"),
            HostRole::Unknown(s) => s.clone(),
        }
    }

    /// A copy of this role.
    pub fn duplicate(&self) -> (r: HostRole)
        ensures
            r@ == self@,
    {
        match self {
            HostRole::Desktop => HostRole::Desktop,
            HostRole::Notebook => HostRole::Notebook,
            HostRole::Server => HostRole::Server,
            HostRole::Unknown(s) => HostRole::Unknown(s.clone()),
        }
    }
}

/// A NixOS configurable target host.
#[derive(Debug, Clone)]
pub struct HostEntity {
    pub name: String,
    pub target_host: String,
    pub target_user: String,
    pub target_port: u16,
    pub role: HostRole,
    pub is_local: bool,
    pub active_closure: Option<String>,
    /// Operator-assignable tags for fleet filtering (`--tag`).
    pub tags: Vec<String>,
    /// The flake `config.nod` surface materialized on the entity (tier 3).
    pub nod_config: NodConfig,
}

impl HostEntity {
    /// Constructs a host with the compiled-in defaults (user `root`,
    /// port `22`, role `server`, no tags, no active closure, no flake
    /// metadata).
    pub fn new(name: &str, target_host: &str, is_local: bool) -> (h: HostEntity)
        ensures
            h.name@ == name@,
            h.target_host@ == target_host@,
            h.target_user@ == "root"@,
            h.target_port == 22,
            h.role@ == RoleView::Server,
            h.is_local == is_local,
            h.active_closure is None,
            h.tags@.len() == 0,
            h.nod_config.is_unset(),
    {
        HostEntity {
            name: name.to_owned(),
            target_host: target_host.to_owned(),
            target_user: String::from_str("root"),
            target_port: 22,
            role: HostRole::Server,
            is_local,
            active_closure: None,
            tags: Vec::new(),
            nod_config: NodConfig::default(),
        }
    }

    /// Returns `true` when the host carries `tag` in its tag set.
    pub fn has_tag(&self, tag: &str) -> (r: bool)
        ensures
            r == views(self.tags@).contains(tag@),
    {
        let mut i: usize = 0;
        while i < self.tags.len()
            invariant
                i <= self.tags@.len(),
                forall|j: int| 0 <= j < i ==> self.tags@[j]@ != tag@,
            decreases self.tags@.len() - i,
        {
            if crate::text::str_eq(self.tags[i].as_str(), tag) {
                proof {
                    assert(views(self.tags@)[i as int] == tag@);
                }
                return true;
            }
            i += 1;
        }
        proof {
            if views(self.tags@).contains(tag@) {
                let j = choose|j: int| 0 <= j < views(self.tags@).len() && views(self.tags@)[j] == tag@;
                assert(self.tags@[j]@ == tag@);
            }
        }
        false
    }

    /// Returns `true` when the host's role string matches `role`, ASCII
    /// letters compared without regard to case.
    pub fn matches_role(&self, role: &str) -> (r: bool)
        ensures
            r == (ascii_lower_seq(role_text(self.role@)) == ascii_lower_seq(role@)),
    {
        let mine = self.role.to_str();
        eq_ignore_ascii_case(mine.as_str(), role)
    }

    /// Returns the functional role of this host.
    pub fn role(&self) -> (r: &HostRole)
        ensures
            r == &self.role,
    {
        &self.role
    }

    /// Returns the SSH user to use when targeting this host.
    pub fn target_user(&self) -> (r: &str)
        ensures
            r@ == self.target_user@,
    {
        self.target_user.as_str()
    }

    /// Returns the SSH port to use when targeting this host.
    pub fn target_port(&self) -> (r: u16)
        ensures
            r == self.target_port,
    {
        self.target_port
    }

    /// Returns `true` when the host is the machine nod runs on.
    pub fn is_local(&self) -> (r: bool)
        ensures
            r == self.is_local,
    {
        self.is_local
    }

    /// Derives the connection descriptor for this host (see
    /// [`SshProfile::for_host`]).
    pub fn ssh_profile(&self) -> (p: SshProfile)
        ensures
            p@ == SshProfile::host_profile(self.target_user@, self.target_port, self.is_local),
    {
        SshProfile::for_host(self)
    }
}

/// Mathematical form of an [`SshProfile`].
pub struct SshProfileView {
    pub user: Seq<char>,
    pub port: u16,
    pub identity_file: Option<Seq<char>>,
    pub proxy_jump: Option<Seq<char>>,
    pub proxy_command: Option<Seq<char>>,
    pub timeout_secs: u32,
    pub connect_timeout_secs: Option<u32>,
    pub extra_ssh_args: Seq<Seq<char>>,
    pub allow_insecure: bool,
    pub sudo: bool,
}

/// An immutable SSH connection descriptor. Connection values are copied on
/// every derivation; configuration methods return a *new* profile.
#[derive(Debug, Clone, PartialEq, Eq)]
pub struct SshProfile {
    user: String,
    port: u16,
    identity_file: Option<String>,
    proxy_jump: Option<String>,
    proxy_command: Option<String>,
    timeout_secs: u32,
    connect_timeout_secs: Option<u32>,
    extra_ssh_args: Vec<String>,
    allow_insecure: bool,
    sudo: bool,
}

impl View for SshProfile {
    type V = SshProfileView;

    closed spec fn view(&self) -> SshProfileView {
        SshProfileView {
            user: self.user@,
            port: self.port,
            identity_file: opt_view(self.identity_file),
            proxy_jump: opt_view(self.proxy_jump),
            proxy_command: opt_view(self.proxy_command),
            timeout_secs: self.timeout_secs,
            connect_timeout_secs: self.connect_timeout_secs,
            extra_ssh_args: views(self.extra_ssh_args@),
            allow_insecure: self.allow_insecure,
            sudo: self.sudo,
        }
    }
}

impl SshProfile {
    /// The profile with `user`, `port` and `sudo` and every other value at
    /// its default (no identity, no proxy, 30 s timeout, no extra args).
    pub open spec fn host_profile(user: Seq<char>, port: u16, sudo: bool) -> SshProfileView {
        SshProfileView {
            user,
            port,
            identity_file: None,
            proxy_jump: None,
            proxy_command: None,
            timeout_secs: 30,
            connect_timeout_secs: None,
            extra_ssh_args: Seq::empty(),
            allow_insecure: false,
            sudo,
        }
    }

    /// Builds a profile for a host from the host's resolved user and port;
    /// escalation with sudo defaults to on for the local host only.
    pub fn for_host(host: &HostEntity) -> (p: SshProfile)
        ensures
            p@ == Self::host_profile(host.target_user@, host.target_port, host.is_local),
    {
        let p = SshProfile {
            user: host.target_user.clone(),
            port: host.target_port,
            identity_file: None,
            proxy_jump: None,
            proxy_command: None,
            timeout_secs: 30,
            connect_timeout_secs: None,
            extra_ssh_args: Vec::new(),
            allow_insecure: false,
            sudo: host.is_local,
        };
        proof {
            assert(views(p.extra_ssh_args@) =~= Seq::<Seq<char>>::empty());
        }
        p
    }

    /// Builds an explicit profile (sudo escalation on).
    pub fn new(user: &str, port: u16) -> (p: SshProfile)
        ensures
            p@ == Self::host_profile(user@, port, true),
    {
        let p = SshProfile {
            user: user.to_owned(),
            port,
            identity_file: None,
            proxy_jump: None,
            proxy_command: None,
            timeout_secs: 30,
            connect_timeout_secs: None,
            extra_ssh_args: Vec::new(),
            allow_insecure: false,
            sudo: true,
        };
        proof {
            assert(views(p.extra_ssh_args@) =~= Seq::<Seq<char>>::empty());
        }
        p
    }

    /// Returns the SSH user.
    pub fn user(&self) -> (r: &str)
        ensures
            r@ == self@.user,
    {
        self.user.as_str()
    }

    /// Returns the SSH port.
    pub fn port(&self) -> (r: u16)
        ensures
            r == self@.port,
    {
        self.port
    }

    /// Returns the identity file, if configured.
    pub fn identity_file(&self) -> (r: Option<&String>)
        ensures
            r matches Some(s) ==> self@.identity_file == Some(s@),
            r is None <==> self@.identity_file is None,
    {
        self.identity_file.as_ref()
    }

    /// Returns the proxy-jump host, if configured.
    pub fn proxy_jump(&self) -> (r: Option<&str>)
        ensures
            r matches Some(s) ==> self@.proxy_jump == Some(s@),
            r is None <==> self@.proxy_jump is None,
    {
        match &self.proxy_jump {
            Some(s) => Some(s.as_str()),
            None => None,
        }
    }

    /// Returns the proxy command, if configured.
    pub fn proxy_command(&self) -> (r: Option<&str>)
        ensures
            r matches Some(s) ==> self@.proxy_command == Some(s@),
            r is None <==> self@.proxy_command is None,
    {
        match &self.proxy_command {
            Some(s) => Some(s.as_str()),
            None => None,
        }
    }

    /// Returns the connection timeout in seconds.
    pub fn timeout_secs(&self) -> (r: u32)
        ensures
            r == self@.timeout_secs,
    {
        self.timeout_secs
    }

    /// Returns the TCP connect timeout in seconds, if configured.
    pub fn connect_timeout_secs(&self) -> (r: Option<u32>)
        ensures
            r == self@.connect_timeout_secs,
    {
        self.connect_timeout_secs
    }

    /// Returns the extra `ssh(1)` arguments, in order.
    pub fn extra_ssh_args(&self) -> (r: &Vec<String>)
        ensures
            views(r@) == self@.extra_ssh_args,
    {
        &self.extra_ssh_args
    }

    /// Returns whether insecure host-key handling is allowed.
    pub fn allow_insecure(&self) -> (r: bool)
        ensures
            r == self@.allow_insecure,
    {
        self.allow_insecure
    }

    /// Returns whether the switch command should be escalated with sudo.
    pub fn sudo(&self) -> (r: bool)
        ensures
            r == self@.sudo,
    {
        self.sudo
    }

    /// Returns a copy with a different SSH user.
    pub fn with_user(self, user: &str) -> (p: SshProfile)
        ensures
            p@ == (SshProfileView { user: user@, ..self@ }),
    {
        SshProfile { user: user.to_owned(), ..self }
    }

    /// Returns a copy with a different SSH port.
    pub fn with_port(self, port: u16) -> (p: SshProfile)
        ensures
            p@ == (SshProfileView { port, ..self@ }),
    {
        SshProfile { port, ..self }
    }

    /// Returns a copy with a different sudo escalation flag.
    pub fn with_sudo(self, sudo: bool) -> (p: SshProfile)
        ensures
            p@ == (SshProfileView { sudo, ..self@ }),
    {
        SshProfile { sudo, ..self }
    }

    /// Returns a copy with a different identity file.
    pub fn with_identity_file(self, path: &str) -> (p: SshProfile)
        ensures
            p@ == (SshProfileView { identity_file: Some(path@), ..self@ }),
    {
        SshProfile { identity_file: Some(path.to_owned()), ..self }
    }

    /// Returns a copy with a different proxy-jump target.
    pub fn with_proxy_jump(self, proxy_jump: &str) -> (p: SshProfile)
        ensures
            p@ == (SshProfileView { proxy_jump: Some(proxy_jump@), ..self@ }),
    {
        SshProfile { proxy_jump: Some(proxy_jump.to_owned()), ..self }
    }

    /// Returns a copy with a different proxy command.
    pub fn with_proxy_command(self, proxy_command: &str) -> (p: SshProfile)
        ensures
            p@ == (SshProfileView { proxy_command: Some(proxy_command@), ..self@ }),
    {
        SshProfile { proxy_command: Some(proxy_command.to_owned()), ..self }
    }

    /// Returns a copy with a different connection timeout.
    pub fn with_timeout_secs(self, timeout_secs: u32) -> (p: SshProfile)
        ensures
            p@ == (SshProfileView { timeout_secs, ..self@ }),
    {
        SshProfile { timeout_secs, ..self }
    }

    /// Returns a copy with a different TCP connect timeout.
    pub fn with_connect_timeout_secs(self, secs: u32) -> (p: SshProfile)
        ensures
            p@ == (SshProfileView { connect_timeout_secs: Some(secs), ..self@ }),
    {
        SshProfile { connect_timeout_secs: Some(secs), ..self }
    }

    /// Returns a copy with `arg` appended to the extra `ssh(1)` arguments.
    pub fn with_extra_ssh_arg(self, arg: &str) -> (p: SshProfile)
        ensures
            p@ == (SshProfileView { extra_ssh_args: self@.extra_ssh_args.push(arg@), ..self@ }),
    {
        let mut args = self.extra_ssh_args;
        let ghost before = args@;
        args.push(arg.to_owned());
        proof {
            assert(views(args@) =~= views(before).push(arg@));
        }
        SshProfile { extra_ssh_args: args, ..self }
    }

    /// Returns a copy with a different insecure-host-key flag.
    pub fn with_allow_insecure(self, allow_insecure: bool) -> (p: SshProfile)
        ensures
            p@ == (SshProfileView { allow_insecure, ..self@ }),
    {
        SshProfile { allow_insecure, ..self }
    }

    /// A copy of this profile.
    pub fn duplicate(&self) -> (p: SshProfile)
        ensures
            p@ == self@,
    {
        SshProfile {
            user: self.user.clone(),
            port: self.port,
            identity_file: clone_opt(&self.identity_file),
            proxy_jump: clone_opt(&self.proxy_jump),
            proxy_command: clone_opt(&self.proxy_command),
            timeout_secs: self.timeout_secs,
            connect_timeout_secs: self.connect_timeout_secs,
            extra_ssh_args: clone_strings(&self.extra_ssh_args),
            allow_insecure: self.allow_insecure,
            sudo: self.sudo,
        }
    }
}

/// A resolved deployment target: the host plus its connection descriptor.
#[derive(Debug, Clone, PartialEq, Eq)]
pub struct TargetHost {
    pub name: String,
    pub profile: SshProfile,
    pub is_local: bool,
}

impl TargetHost {
    /// Derives a target from a host entity.
    pub fn from_host(host: &HostEntity) -> (t: TargetHost)
        ensures
            t.name@ == host.name@,
            t.profile@ == SshProfile::host_profile(host.target_user@, host.target_port, host.is_local),
            t.is_local == host.is_local,
    {
        TargetHost {
            name: host.name.clone(),
            profile: SshProfile::for_host(host),
            is_local: host.is_local,
        }
    }
}

/// A fleet host selected to compile closures remotely.
#[derive(Debug, Clone, PartialEq, Eq)]
pub struct BuilderHost {
    pub target_host: String,
    pub profile: SshProfile,
}

} // verus!
