//! Host discovery and closure building through the `nix` CLI: the commands,
//! the Nix expression that reads one host's `config.nod` surface, and the
//! reading of what the commands print.

use vstd::prelude::*;
use crate::config::NodConfig;
use crate::errors::{ErrorClass, NodError};
use crate::host::{lowercase_of, role_from, BuilderHost, HostEntity, HostRole, SshProfile};
use crate::json::{at, parse_json, parsed_json, str_of, JsonValue};
use crate::process::{CommandOutput, Invocation, SpawnError};
use crate::text::{decimal, decimal_string, trim, trimmed, views};

verus! {

/// Per-host flake metadata (`config.nod`) as the metadata expression
/// reports it.
#[derive(Debug, Clone, PartialEq, Eq)]
pub struct FlakeMeta {
    pub target_host: String,
    pub role: String,
    pub tags: Vec<String>,
    pub user: Option<String>,
    pub port: Option<u16>,
    /// The raw `config.nod` object; absent when the host does not use the
    /// nod module.
    pub nod: Option<NodConfig>,
}

/// `value` escaped for a double-quoted Nix string literal: `\` and `"` get
/// a backslash, and so does the `${` interpolation marker.
pub open spec fn nix_escaped(s: Seq<char>) -> Seq<char>
    decreases s.len(),
{
    if s.len() == 0 {
        Seq::empty()
    } else if s[0] == '\\' {
        seq!['\\', '\\'] + nix_escaped(s.drop_first())
    } else if s[0] == '"' {
        seq!['\\', '"'] + nix_escaped(s.drop_first())
    } else if s[0] == '$' && s.len() > 1 && s[1] == '{' {
        seq!['\\', '$', '{'] + nix_escaped(s.skip(2))
    } else {
        seq![s[0]] + nix_escaped(s.drop_first())
    }
}

/// The Nix expression that reads one host's metadata, for an escaped flake
/// path `p` and host name `n`.
pub open spec fn meta_expr_text(p: Seq<char>, n: Seq<char>) -> Seq<char> {
    "let x = (import \""@ + p + "\").nixosConfigurations.\""@ + n
        + "\".config; in { targetHost = if x ? nod && x.nod ? targetHost then x.nod.targetHost else (if x ? deployment && x.deployment ? targetHost then x.deployment.targetHost else (if x ? networking && x.networking ? hostName then x.networking.hostName else \""@
        + n
        + "\")); role = if x ? nod && x.nod ? role then x.nod.role else (if x ? deployment && x.deployment ? role then x.deployment.role else \"server\"); tags = if x ? nod && x.nod ? tags && builtins.isList x.nod.tags then map toString x.nod.tags else []; user = if x ? nod && x.nod ? ssh && x.nod.ssh ? user then x.nod.ssh.user else (if x ? nod && x.nod ? user then x.nod.user else null); port = if x ? nod && x.nod ? ssh && x.nod.ssh ? port && builtins.isInt x.nod.ssh.port then x.nod.ssh.port else (if x ? nod && x.nod ? port && builtins.isInt x.nod.port then x.nod.port else null); nod = if x ? nod then x.nod else null } "@
}

/// The Nix `--builders` SSH URI of a builder host:
/// `ssh://<user>@<host>`, with `:<port>` when the port is not 22.
pub open spec fn builder_uri(user: Seq<char>, host: Seq<char>, port: u16) -> Seq<char> {
    "ssh://"@ + user + "@"@ + host + if port == 22 {
        Seq::empty()
    } else {
        ":"@ + decimal(port as nat)
    }
}

/// The flake attribute of a host's toplevel closure.
pub open spec fn toplevel_attr(flake: Seq<char>, host: Seq<char>) -> Seq<char> {
    flake + "#nixosConfigurations."@ + host + ".config.system.build.toplevel"@
}

/// The host names a discovery document lists: an array of strings.
pub open spec fn names_of(v: JsonValue) -> Option<Seq<Seq<char>>> {
    match v {
        JsonValue::Array(items) => if forall|i: int| 0 <= i < items@.len() ==> (#[trigger] items@[i]) is Str {
            Some(items@.map_values(|x: JsonValue| str_of(x)->0))
        } else {
            None
        },
        _ => None,
    }
}

/// `v[0]`: the first element of an array, else `null`.
pub open spec fn first_of(v: JsonValue) -> JsonValue {
    match v {
        JsonValue::Array(items) => if items@.len() > 0 {
            items@[0]
        } else {
            JsonValue::Null
        },
        _ => JsonValue::Null,
    }
}

/// The store path a `nix build --json` document reports: `[0].outputs.out`.
pub open spec fn out_path_of(v: JsonValue) -> Option<Seq<char>> {
    str_of(at(at(first_of(v), "outputs"@), "out"@))
}

/// Evaluates the flake via the `nix` CLI to discover hosts and build closures.
#[derive(Debug, Clone, Copy, PartialEq, Eq)]
pub struct NixCliEvaluator;

/// The Lix flavour of the evaluator, driving the same `nix` commands.
#[derive(Debug, Clone, Copy, PartialEq, Eq)]
pub struct LixEvaluator;

impl LixEvaluator {
    /// Creates the evaluator.
    pub fn new() -> (r: LixEvaluator) {
        LixEvaluator
    }
}

impl NixCliEvaluator {
    /// Creates the evaluator.
    pub fn new() -> (r: NixCliEvaluator) {
        NixCliEvaluator
    }

    /// Escapes a value for interpolation into a double-quoted Nix string
    /// literal: `\`, `"` and the `${` interpolation marker are escaped so
    /// host names and flake paths with special characters evaluate
    /// literally (spaces need no escaping inside a Nix string).
    pub fn nix_escape(value: &str) -> (out: String)
        ensures
            out@ == nix_escaped(value@),
    {
        let cs = crate::text::chars_of(value);
        let n = cs.len();
        let mut out = String::new();
        let mut i: usize = 0;
        proof {
            assert(value@.skip(0) =~= value@);
            assert(out@ =~= Seq::<char>::empty());
        }
        while i < n
            invariant
                cs@ == value@,
                n == cs@.len(),
                i <= n,
                out@ + nix_escaped(value@.skip(i as int)) == nix_escaped(value@),
            decreases n - i,
        {
            let c = cs[i];
            let ghost rest = value@.skip(i as int);
            let ghost before = out@;
            proof {
                assert(rest[0] == c);
                assert(rest.drop_first() =~= value@.skip(i as int + 1));
            }
            if c == '\\' {
                crate::text::push_char(&mut out, '\\');
                crate::text::push_char(&mut out, '\\');
                i += 1;
                proof {
                    assert(out@ =~= before + seq!['\\', '\\']);
                }
            } else if c == '"' {
                crate::text::push_char(&mut out, '\\');
                crate::text::push_char(&mut out, '"');
                i += 1;
                proof {
                    assert(out@ =~= before + seq!['\\', '"']);
                }
            } else if c == '$' && i + 1 < n && cs[i + 1] == '{' {
                crate::text::push_char(&mut out, '\\');
                crate::text::push_char(&mut out, '$');
                crate::text::push_char(&mut out, '{');
                proof {
                    assert(rest[1] == '{');
                    assert(rest.skip(2) =~= value@.skip(i as int + 2));
                    assert(out@ =~= before + seq!['\\', '$', '{']);
                }
                i += 2;
            } else {
                crate::text::push_char(&mut out, c);
                i += 1;
                proof {
                    assert(out@ =~= before + seq![c]);
                }
            }
        }
        proof {
            assert(value@.skip(n as int) =~= Seq::<char>::empty());
            assert(out@ + Seq::<char>::empty() =~= out@);
        }
        out
    }

    /// Builds the Nix expression that evaluates one host's `config.nod`
    /// surface. The flake path and host name are escaped as Nix string
    /// literals (and the host selected with a quoted attribute) so paths and
    /// names containing spaces, quotes or `${` evaluate correctly.
    pub fn build_meta_expr(flake_path: &str, name: &str) -> (expr: String)
        ensures
            expr@ == meta_expr_text(nix_escaped(flake_path@), nix_escaped(name@)),
    {
        let p = Self::nix_escape(flake_path);
        let n = Self::nix_escape(name);
        let mut e = String::from_str("let x = (import \"");
        e.append(p.as_str());
        e.append("\").nixosConfigurations.\"");
        e.append(n.as_str());
        e.append(
            "\".config; in { targetHost = if x ? nod && x.nod ? targetHost then x.nod.targetHost else (if x ? deployment && x.deployment ? targetHost then x.deployment.targetHost else (if x ? networking && x.networking ? hostName then x.networking.hostName else \"",
        );
        e.append(n.as_str());
        e.append(
            "\")); role = if x ? nod && x.nod ? role then x.nod.role else (if x ? deployment && x.deployment ? role then x.deployment.role else \"server\"); tags = if x ? nod && x.nod ? tags && builtins.isList x.nod.tags then map toString x.nod.tags else []; user = if x ? nod && x.nod ? ssh && x.nod.ssh ? user then x.nod.ssh.user else (if x ? nod && x.nod ? user then x.nod.user else null); port = if x ? nod && x.nod ? ssh && x.nod.ssh ? port && builtins.isInt x.nod.ssh.port then x.nod.ssh.port else (if x ? nod && x.nod ? port && builtins.isInt x.nod.port then x.nod.port else null); nod = if x ? nod then x.nod else null } ",
        );
        e
    }

    /// `nix eval --json --expr <expr>` for one host's metadata.
    pub fn meta_invocation(flake_path: &str, name: &str) -> (inv: Invocation)
        ensures
            inv.program@ == "nix"@,
            views(inv.args@) == seq![
                "eval"@,
                "--json"@,
                "--expr"@,
                meta_expr_text(nix_escaped(flake_path@), nix_escaped(name@)),
            ],
            inv.env@.len() == 0,
    {
        let mut args: Vec<String> = Vec::new();
        args.push(String::from_str("eval"));
        args.push(String::from_str("--json"));
        args.push(String::from_str("--expr"));
        args.push(Self::build_meta_expr(flake_path, name));
        proof {
            assert(views(args@) =~= seq![
                "eval"@,
                "--json"@,
                "--expr"@,
                meta_expr_text(nix_escaped(flake_path@), nix_escaped(name@)),
            ]);
        }
        Invocation::new("nix", args)
    }

    /// Reads one host's metadata evaluation: a failure to start or a failed
    /// run is an evaluation error naming the host; `parsed` is the metadata
    /// the run's JSON output decodes to, and a run whose output does not
    /// decode is a parse failure naming the host.
    pub fn eval_meta(name: &str, outcome: &Result<CommandOutput, SpawnError>, parsed: Option<FlakeMeta>) -> (r: Result<FlakeMeta, NodError>)
        ensures
            match outcome {
                Err(_) => r matches Err(e) && e.is(
                    ErrorClass::Evaluation,
                    "failed to evaluate flake metadata for host '"@ + name@
                        + "': could not launch `nix eval`"@,
                ),
                Ok(out) => if !out.success {
                    r matches Err(e) && e.is(
                        ErrorClass::Evaluation,
                        "failed to evaluate flake metadata for host '"@ + name@ + "': "@ + trimmed(out.stderr@),
                    )
                } else {
                    match parsed {
                        Some(m) => r == Ok::<FlakeMeta, NodError>(m),
                        None => r matches Err(e) && e.is(
                            ErrorClass::Evaluation,
                            "failed to parse Nix output: flake metadata JSON for host '"@ + name@ + "'"@,
                        ),
                    }
                },
            },
    {
        match outcome {
            Err(_) => {
                let mut d = String::from_str("failed to evaluate flake metadata for host '");
                d.append(name);
                d.append("': could not launch `nix eval`");
                Err(NodError::of_class(ErrorClass::Evaluation, d))
            },
            Ok(out) => {
                if !out.success {
                    let mut d = String::from_str("failed to evaluate flake metadata for host '");
                    d.append(name);
                    d.append("': ");
                    d.append(trim(out.stderr.as_str()));
                    Err(NodError::of_class(ErrorClass::Evaluation, d))
                } else {
                    match parsed {
                        Some(m) => Ok(m),
                        None => {
                            let mut d = String::from_str("flake metadata JSON for host '");
                            d.append(name);
                            d.append("'");
                            let e = NodError::parse_failure(d.as_str());
                            proof {
                                reveal_strlit("failed to parse Nix output: ");
                                reveal_strlit("flake metadata JSON for host '");
                                reveal_strlit("failed to parse Nix output: flake metadata JSON for host '");
                                assert("failed to parse Nix output: "@ + ("flake metadata JSON for host '"@ + name@
                                    + "'"@) =~= "failed to parse Nix output: flake metadata JSON for host '"@
                                    + name@ + "'"@);
                            }
                            Err(e)
                        },
                    }
                }
            },
        }
    }
}

/// `h` is the host entity discovered as `name` with metadata `meta`:
/// defaults overridden by the metadata's target, role, tags, user, port and
/// `config.nod`, and local when `name` is the local host name.
pub open spec fn host_from(h: HostEntity, name: Seq<char>, meta: FlakeMeta, local: Seq<char>) -> bool {
    &&& h.name@ == name
    &&& h.target_host@ == meta.target_host@
    &&& h.target_user@ == (match meta.user {
        Some(u) => u@,
        None => "root"@,
    })
    &&& h.target_port == (match meta.port {
        Some(p) => p,
        None => 22u16,
    })
    &&& h.role@ == role_from(lowercase_of(meta.role@), meta.role@)
    &&& h.is_local == (name == local)
    &&& h.active_closure is None
    &&& h.tags@ == meta.tags@
    &&& match meta.nod {
        Some(n) => h.nod_config == n,
        None => h.nod_config.is_unset(),
    }
}

impl NixCliEvaluator {
    /// The host entity for `name` from its evaluated metadata; the host is
    /// local when `name` is the machine's host name `local_hostname`.
    pub fn host_from_meta(name: &str, meta: FlakeMeta, local_hostname: &str) -> (h: HostEntity)
        ensures
            host_from(h, name@, meta, local_hostname@),
    {
        let is_local = crate::text::str_eq(name, local_hostname);
        let mut entity = HostEntity::new(name, meta.target_host.as_str(), is_local);
        entity.role = HostRole::parse(meta.role.as_str());
        entity.tags = meta.tags;
        match meta.user {
            Some(user) => {
                entity.target_user = user;
            },
            None => {},
        }
        match meta.port {
            Some(port) => {
                entity.target_port = port;
            },
            None => {},
        }
        match meta.nod {
            Some(nod) => {
                entity.nod_config = nod;
            },
            None => {},
        }
        entity
    }

    /// `nix eval --json <flake>#nixosConfigurations --apply builtins.attrNames`.
    pub fn discovery_invocation(flake_path: &str) -> (inv: Invocation)
        ensures
            inv.program@ == "nix"@,
            views(inv.args@) == seq![
                "eval"@,
                "--json"@,
                flake_path@ + "#nixosConfigurations"@,
                "--apply"@,
                "builtins.attrNames"@,
            ],
            inv.env@.len() == 0,
    {
        let mut attr = flake_path.to_owned();
        attr.append("#nixosConfigurations");
        let mut args: Vec<String> = Vec::new();
        args.push(String::from_str("eval"));
        args.push(String::from_str("--json"));
        args.push(attr);
        args.push(String::from_str("--apply"));
        args.push(String::from_str("builtins.attrNames"));
        proof {
            assert(views(args@) =~= seq![
                "eval"@,
                "--json"@,
                flake_path@ + "#nixosConfigurations"@,
                "--apply"@,
                "builtins.attrNames"@,
            ]);
        }
        Invocation::new("nix", args)
    }

    /// The host names of a discovery document: an array of strings.
    pub fn names_from_json(v: &JsonValue) -> (r: Option<Vec<String>>)
        ensures
            match names_of(*v) {
                Some(names) => r matches Some(x) && views(x@) == names,
                None => r is None,
            },
    {
        match v {
            JsonValue::Array(items) => {
                let mut names: Vec<String> = Vec::new();
                let mut i: usize = 0;
                while i < items.len()
                    invariant
                        *v == JsonValue::Array(*items),
                        i <= items@.len(),
                        names@.len() == i,
                        forall|k: int| 0 <= k < i ==> (#[trigger] items@[k]) is Str && str_of(items@[k]) == Some(
                            names@[k]@,
                        ),
                    decreases items@.len() - i,
                {
                    match &items[i] {
                        JsonValue::Str(s) => {
                            names.push(s.clone());
                        },
                        _ => {
                            proof {
                                assert(!(items@[i as int] is Str));
                                assert(!(forall|k: int| 0 <= k < items@.len() ==> (#[trigger] items@[k]) is Str));
                                assert(*v == JsonValue::Array(*items));
                                assert(names_of(*v) is None);
                            }
                            return None;
                        },
                    }
                    i += 1;
                }
                proof {
                    assert(views(names@) =~= items@.map_values(|x: JsonValue| str_of(x)->0));
                }
                Some(names)
            },
            _ => None,
        }
    }

    /// Reads the discovery run: a failure to start or a failed run is a
    /// discovery failure (with the run's error output); the output must be
    /// a JSON array of host names.
    pub fn read_discovery(outcome: &Result<CommandOutput, SpawnError>) -> (r: Result<Vec<String>, NodError>)
        ensures
            match outcome {
                Err(_) => r matches Err(e) && e.is(
                    ErrorClass::Evaluation,
                    "Nix host discovery evaluation failed: failed to launch `nix eval`"@,
                ),
                Ok(out) => if !out.success {
                    r matches Err(e) && e.is(
                        ErrorClass::Evaluation,
                        "Nix host discovery evaluation failed: "@ + out.stderr@,
                    )
                } else {
                    match parsed_json(out.stdout@) {
                        Ok(v) => match names_of(v) {
                            Some(names) => r matches Ok(x) && views(x@) == names,
                            None => r matches Err(e) && e.is(
                                ErrorClass::Evaluation,
                                "failed to parse Nix output: host discovery JSON"@,
                            ),
                        },
                        Err(_) => r matches Err(e) && e.is(
                            ErrorClass::Evaluation,
                            "failed to parse Nix output: host discovery JSON"@,
                        ),
                    }
                },
            },
    {
        proof {
            reveal_strlit("failed to parse Nix output: ");
            reveal_strlit("host discovery JSON");
            reveal_strlit("failed to parse Nix output: host discovery JSON");
            reveal_strlit("Nix host discovery evaluation failed: ");
            reveal_strlit("failed to launch `nix eval`");
            reveal_strlit("Nix host discovery evaluation failed: failed to launch `nix eval`");
            assert("failed to parse Nix output: "@ + "host discovery JSON"@
                =~= "failed to parse Nix output: host discovery JSON"@);
            assert("Nix host discovery evaluation failed: "@ + "failed to launch `nix eval`"@
                =~= "Nix host discovery evaluation failed: failed to launch `nix eval`"@);
        }
        match outcome {
            Err(_) => Err(NodError::discovery_failure("failed to launch `nix eval`")),
            Ok(out) => {
                if !out.success {
                    return Err(NodError::discovery_failure(out.stderr.as_str()));
                }
                match parse_json(out.stdout.as_str()) {
                    Ok(v) => match Self::names_from_json(&v) {
                        Some(names) => Ok(names),
                        None => Err(NodError::parse_failure("host discovery JSON")),
                    },
                    Err(_) => Err(NodError::parse_failure("host discovery JSON")),
                }
            },
        }
    }

    /// `nix build --json <flake>#...toplevel [--builders <uri>] --no-link`:
    /// a remote build compiles the closure on the builder over the Nix
    /// `--builders` SSH transport.
    pub fn build_invocation(flake_path: &str, host_name: &str, builder: Option<&BuilderHost>) -> (inv: Invocation)
        ensures
            inv.program@ == "nix"@,
            views(inv.args@) == seq!["build"@, "--json"@, toplevel_attr(flake_path@, host_name@)] + (match builder {
                Some(b) => seq!["--builders"@, builder_uri(b.profile@.user, b.target_host@, b.profile@.port)],
                None => Seq::empty(),
            }) + seq!["--no-link"@],
            inv.env@.len() == 0,
    {
        let mut attr = flake_path.to_owned();
        attr.append("#nixosConfigurations.");
        attr.append(host_name);
        attr.append(".config.system.build.toplevel");
        let mut args: Vec<String> = Vec::new();
        args.push(String::from_str("build"));
        args.push(String::from_str("--json"));
        args.push(attr);
        let ghost a = views(args@);
        match builder {
            Some(b) => {
                args.push(String::from_str("--builders"));
                args.push(build_builder_uri(b));
            },
            None => {},
        }
        let ghost m = views(args@);
        args.push(String::from_str("--no-link"));
        proof {
            assert(a =~= seq!["build"@, "--json"@, toplevel_attr(flake_path@, host_name@)]);
            assert(m =~= a + (match builder {
                Some(b) => seq!["--builders"@, builder_uri(b.profile@.user, b.target_host@, b.profile@.port)],
                None => Seq::empty(),
            }));
            assert(views(args@) =~= m + seq!["--no-link"@]);
        }
        Invocation::new("nix", args)
    }

    /// The store path a `nix build --json` document reports.
    pub fn out_path_from_json(v: &JsonValue) -> (r: Option<String>)
        ensures
            match out_path_of(*v) {
                Some(p) => r matches Some(x) && x@ == p,
                None => r is None,
            },
    {
        let first: Option<&JsonValue> = match v {
            JsonValue::Array(items) => if items.len() > 0 {
                Some(&items[0])
            } else {
                None
            },
            _ => None,
        };
        match first {
            Some(f) => match f.get("outputs") {
                Some(o) => match o.str_at("out") {
                    Some(p) => Some(p.to_owned()),
                    None => None,
                },
                None => {
                    proof {
                        assert(at(JsonValue::Null, "out"@) == JsonValue::Null);
                    }
                    None
                },
            },
            None => {
                proof {
                    assert(at(JsonValue::Null, "outputs"@) == JsonValue::Null);
                    assert(at(JsonValue::Null, "out"@) == JsonValue::Null);
                }
                None
            },
        }
    }

    /// Reads a closure build of `host_name`: a failure to start or a failed
    /// run is a build failure for the host (with the run's error output);
    /// the output must be JSON naming the `out` store path.
    pub fn read_build(host_name: &str, outcome: &Result<CommandOutput, SpawnError>) -> (r: Result<String, NodError>)
        ensures
            match outcome {
                Err(_) => r matches Err(e) && e.is(
                    ErrorClass::Evaluation,
                    "Nix build failed for host "@ + host_name@ + ": failed to launch `nix build`"@,
                ),
                Ok(out) => if !out.success {
                    r matches Err(e) && e.is(
                        ErrorClass::Evaluation,
                        "Nix build failed for host "@ + host_name@ + ": "@ + out.stderr@,
                    )
                } else {
                    match parsed_json(out.stdout@) {
                        Ok(v) => match out_path_of(v) {
                            Some(p) => r matches Ok(x) && x@ == p,
                            None => r matches Err(e) && e.is(
                                ErrorClass::Evaluation,
                                "failed to parse Nix output: build JSON contained no `out` store path"@,
                            ),
                        },
                        Err(_) => r matches Err(e) && e.is(
                            ErrorClass::Evaluation,
                            "failed to parse Nix output: nix build JSON"@,
                        ),
                    }
                },
            },
    {
        proof {
            reveal_strlit("failed to parse Nix output: ");
            reveal_strlit("nix build JSON");
            reveal_strlit("failed to parse Nix output: nix build JSON");
            reveal_strlit("build JSON contained no `out` store path");
            reveal_strlit("failed to parse Nix output: build JSON contained no `out` store path");
            reveal_strlit(": ");
            reveal_strlit("failed to launch `nix build`");
            reveal_strlit(": failed to launch `nix build`");
            assert("failed to parse Nix output: "@ + "nix build JSON"@ =~= "failed to parse Nix output: nix build JSON"@);
            assert("failed to parse Nix output: "@ + "build JSON contained no `out` store path"@
                =~= "failed to parse Nix output: build JSON contained no `out` store path"@);
            assert("Nix build failed for host "@ + host_name@ + ": "@ + "failed to launch `nix build`"@
                =~= "Nix build failed for host "@ + host_name@ + ": failed to launch `nix build`"@);
        }
        match outcome {
            Err(_) => Err(NodError::build_failure(host_name, "failed to launch `nix build`")),
            Ok(out) => {
                if !out.success {
                    return Err(NodError::build_failure(host_name, out.stderr.as_str()));
                }
                match parse_json(out.stdout.as_str()) {
                    Ok(v) => match Self::out_path_from_json(&v) {
                        Some(p) => Ok(p),
                        None => Err(NodError::parse_failure("build JSON contained no `out` store path")),
                    },
                    Err(_) => Err(NodError::parse_failure("nix build JSON")),
                }
            },
        }
    }
}

/// Builds the Nix `--builders` SSH transport URI for a builder host
/// (`ssh://<user>@<target_host>`, appending `:<port>` when not 22).
pub fn build_builder_uri(b: &BuilderHost) -> (uri: String)
    ensures
        uri@ == builder_uri(b.profile@.user, b.target_host@, b.profile@.port),
{
    let port = b.profile.port();
    let mut uri = String::from_str("ssh://");
    uri.append(b.profile.user());
    uri.append("@");
    uri.append(b.target_host.as_str());
    if port != 22 {
        uri.append(":");
        uri.append(decimal_string(port as u64).as_str());
    }
    proof {
        if port == 22 {
            assert(uri@ =~= "ssh://"@ + b.profile@.user + "@"@ + b.target_host@ + Seq::<char>::empty());
        }
    }
    uri
}

// ----- the `anyhow`-style evaluators ------------------------------------------

/// The host names a discovery run by the evaluator `tool` (`Nix` or `Lix`)
/// yields, or its failure text.
pub open spec fn discovery_text(tool: Seq<char>, outcome: Result<CommandOutput, SpawnError>) -> Result<Seq<Seq<char>>, Seq<char>> {
    match outcome {
        Err(_) => Err("Failed to execute "@ + tool + " evaluation for host discovery"@),
        Ok(out) => if !out.success {
            Err(tool + " host discovery evaluation failed: "@ + out.stderr@)
        } else {
            match parsed_json(out.stdout@) {
                Ok(v) => match names_of(v) {
                    Some(names) => Ok(names),
                    None => Err("Failed to parse "@ + tool + " host discovery JSON output"@),
                },
                Err(_) => Err("Failed to parse "@ + tool + " host discovery JSON output"@),
            }
        },
    }
}

/// The store path a build run of `host` by the evaluator `tool` yields, or
/// its failure text; `launch` is the text of a run that could not start.
pub open spec fn build_text(tool: Seq<char>, launch: Seq<char>, host: Seq<char>, outcome: Result<CommandOutput, SpawnError>) -> Result<Seq<char>, Seq<char>> {
    match outcome {
        Err(_) => Err(launch),
        Ok(out) => if !out.success {
            Err(tool + " build failed for host "@ + host + ": "@ + out.stderr@)
        } else {
            match parsed_json(out.stdout@) {
                Ok(v) => match out_path_of(v) {
                    Some(p) => Ok(p),
                    None => Err("Build JSON did not contain 'out' store path"@),
                },
                Err(_) => Err("Failed to parse "@ + tool + " build JSON output"@),
            }
        },
    }
}

/// Reads a discovery run of the evaluator `tool` (`Nix` or `Lix`).
pub fn read_discovery_text(tool: &str, outcome: &Result<CommandOutput, SpawnError>) -> (r: Result<Vec<String>, String>)
    ensures
        match discovery_text(tool@, *outcome) {
            Ok(names) => r matches Ok(x) && views(x@) == names,
            Err(t) => r matches Err(m) && m@ == t,
        },
{
    match outcome {
        Err(_) => {
            let mut m = String::from_str("Failed to execute ");
            m.append(tool);
            m.append(" evaluation for host discovery");
            Err(m)
        },
        Ok(out) => {
            if !out.success {
                let mut m = tool.to_owned();
                m.append(" host discovery evaluation failed: ");
                m.append(out.stderr.as_str());
                return Err(m);
            }
            let parsed = match parse_json(out.stdout.as_str()) {
                Ok(v) => NixCliEvaluator::names_from_json(&v),
                Err(_) => None,
            };
            match parsed {
                Some(names) => Ok(names),
                None => {
                    let mut m = String::from_str("Failed to parse ");
                    m.append(tool);
                    m.append(" host discovery JSON output");
                    Err(m)
                },
            }
        },
    }
}

/// Reads a build run of `host_name` by the evaluator `tool`; `launch` is
/// the text of a run that could not start.
pub fn read_build_text(tool: &str, launch: &str, host_name: &str, outcome: &Result<CommandOutput, SpawnError>) -> (r: Result<String, String>)
    ensures
        match build_text(tool@, launch@, host_name@, *outcome) {
            Ok(p) => r matches Ok(x) && x@ == p,
            Err(t) => r matches Err(m) && m@ == t,
        },
{
    match outcome {
        Err(_) => Err(launch.to_owned()),
        Ok(out) => {
            if !out.success {
                let mut m = tool.to_owned();
                m.append(" build failed for host ");
                m.append(host_name);
                m.append(": ");
                m.append(out.stderr.as_str());
                return Err(m);
            }
            match parse_json(out.stdout.as_str()) {
                Ok(v) => match NixCliEvaluator::out_path_from_json(&v) {
                    Some(p) => Ok(p),
                    None => Err(String::from_str("Build JSON did not contain 'out' store path")),
                },
                Err(_) => {
                    let mut m = String::from_str("Failed to parse ");
                    m.append(tool);
                    m.append(" build JSON output");
                    Err(m)
                },
            }
        },
    }
}

impl LixEvaluator {
    /// Reads a Lix discovery run (`nix eval ... --apply builtins.attrNames`).
    pub fn read_discovery(outcome: &Result<CommandOutput, SpawnError>) -> (r: Result<Vec<String>, String>)
        ensures
            match discovery_text("Lix"@, *outcome) {
                Ok(names) => r matches Ok(x) && views(x@) == names,
                Err(t) => r matches Err(m) && m@ == t,
            },
    {
        read_discovery_text("Lix", outcome)
    }

    /// The hosts of discovered `names`: each its own target, a server, local
    /// when named as this machine (`local_hostname`).
    pub fn hosts_from_names(names: &Vec<String>, local_hostname: &str) -> (hosts: Vec<HostEntity>)
        ensures
            hosts@.len() == names@.len(),
            forall|i: int| #![trigger hosts@[i]] 0 <= i < hosts@.len() ==> {
                let h = hosts@[i];
                &&& h.name@ == names@[i]@
                &&& h.target_host@ == names@[i]@
                &&& h.is_local == (names@[i]@ == local_hostname@)
                &&& h.target_user@ == "root"@
                &&& h.target_port == 22
                &&& h.role@ == crate::host::RoleView::Server
                &&& h.tags@.len() == 0
                &&& h.nod_config.is_unset()
            },
    {
        let mut hosts: Vec<HostEntity> = Vec::new();
        let mut i: usize = 0;
        while i < names.len()
            invariant
                i <= names@.len(),
                hosts@.len() == i,
                forall|k: int| #![trigger hosts@[k]] 0 <= k < i ==> {
                    let h = hosts@[k];
                    &&& h.name@ == names@[k]@
                    &&& h.target_host@ == names@[k]@
                    &&& h.is_local == (names@[k]@ == local_hostname@)
                    &&& h.target_user@ == "root"@
                    &&& h.target_port == 22
                    &&& h.role@ == crate::host::RoleView::Server
                    &&& h.tags@.len() == 0
                    &&& h.nod_config.is_unset()
                },
            decreases names@.len() - i,
        {
            let name = names[i].as_str();
            hosts.push(plain_host(name, name, local_hostname));
            i += 1;
        }
        hosts
    }

    /// Reads a Lix build run of `host_name`.
    pub fn read_build(host_name: &str, outcome: &Result<CommandOutput, SpawnError>) -> (r: Result<String, String>)
        ensures
            match build_text("Lix"@, "Failed to build NixOS system closure with Lix"@, host_name@, *outcome) {
                Ok(p) => r matches Ok(x) && x@ == p,
                Err(t) => r matches Err(m) && m@ == t,
            },
    {
        read_build_text("Lix", "Failed to build NixOS system closure with Lix", host_name, outcome)
    }
}

/// The plain target-host expression of host `name` in the flake at
/// `flake`: `deployment.targetHost`, else `networking.hostName`, else the
/// name (spliced in as given).
pub open spec fn target_expr_text(flake: Seq<char>, name: Seq<char>) -> Seq<char> {
    "let c = (import "@ + flake + ").nixosConfigurations."@ + name
        + ".config; in if c ? deployment && c.deployment ? targetHost then c.deployment.targetHost else (if c ? networking && c.networking ? hostName then c.networking.hostName else \""@
        + name + "\")"@
}

/// The target host a target-host evaluation of `name` yields: the JSON
/// string the run printed, else the name itself.
pub open spec fn target_from(name: Seq<char>, outcome: Result<CommandOutput, SpawnError>) -> Seq<char> {
    match outcome {
        Ok(out) => match parsed_json(out.stdout@) {
            Ok(JsonValue::Str(s)) => s@,
            _ => name,
        },
        Err(_) => name,
    }
}

impl NixCliEvaluator {
    /// `nix eval --json --expr <target-host expression>` for host `name`.
    pub fn target_invocation(flake_path: &str, name: &str) -> (inv: Invocation)
        ensures
            inv.program@ == "nix"@,
            views(inv.args@) == seq!["eval"@, "--json"@, "--expr"@, target_expr_text(flake_path@, name@)],
            inv.env@.len() == 0,
    {
        let mut expr = String::from_str("let c = (import ");
        expr.append(flake_path);
        expr.append(").nixosConfigurations.");
        expr.append(name);
        expr.append(".config; in if c ? deployment && c.deployment ? targetHost then c.deployment.targetHost else (if c ? networking && c.networking ? hostName then c.networking.hostName else \"");
        expr.append(name);
        expr.append("\")");
        let mut args: Vec<String> = Vec::new();
        args.push(String::from_str("eval"));
        args.push(String::from_str("--json"));
        args.push(String::from_str("--expr"));
        args.push(expr);
        proof {
            assert(views(args@) =~= seq!["eval"@, "--json"@, "--expr"@, target_expr_text(flake_path@, name@)]);
        }
        Invocation::new("nix", args)
    }

    /// Reads a target-host evaluation of `name`; any failure falls back to
    /// the name.
    pub fn read_target(name: &str, outcome: &Result<CommandOutput, SpawnError>) -> (t: String)
        ensures
            t@ == target_from(name@, *outcome),
    {
        match outcome {
            Ok(out) => match parse_json(out.stdout.as_str()) {
                Ok(JsonValue::Str(s)) => s,
                _ => name.to_owned(),
            },
            Err(_) => name.to_owned(),
        }
    }
}

/// The host `name` reached at `target`, a server, local when named as this
/// machine (`local_hostname`).
pub fn plain_host(name: &str, target: &str, local_hostname: &str) -> (h: HostEntity)
    ensures
        h.name@ == name@,
        h.target_host@ == target@,
        h.is_local == (name@ == local_hostname@),
        h.target_user@ == "root"@,
        h.target_port == 22,
        h.role@ == crate::host::RoleView::Server,
        h.tags@.len() == 0,
        h.nod_config.is_unset(),
{
    let local = crate::text::str_eq(name, local_hostname);
    HostEntity::new(name, target, local)
}

} // verus!
