//! Pluggable secrets management: which provider a flake uses, which files
//! hold a host's secrets, how each is checked and rekeyed, and the reports.
//!
//! The store itself only decides; listing directories, copying files and
//! running `sops` / `agenix` are left to the caller, which hands back what it
//! found as plain values.

use vstd::prelude::*;
use crate::process::{CommandOutput, Invocation, SpawnError};
use crate::text::{
    decimal, has_infix, has_suffix, path_joined, trimmed, views, contains_str, ends_with, join_path, trim,
};

verus! {

/// The detected or configured secrets management backend.
#[derive(Debug, Clone, PartialEq, Eq)]
pub enum SecretProvider {
    /// sops-nix (SOPS with Age / PGP).
    Sops,
    /// agenix (Age encryption).
    Agenix,
    /// Custom operator-defined check/rekey command.
    Custom(String),
    /// No secrets management declared.
    Undeclared,
}

/// Mathematical form of a [`SecretProvider`].
pub enum ProviderView {
    Sops,
    Agenix,
    Custom(Seq<char>),
    Undeclared,
}

impl View for SecretProvider {
    type V = ProviderView;

    open spec fn view(&self) -> ProviderView {
        match self {
            SecretProvider::Sops => ProviderView::Sops,
            SecretProvider::Agenix => ProviderView::Agenix,
            SecretProvider::Custom(c) => ProviderView::Custom(c@),
            SecretProvider::Undeclared => ProviderView::Undeclared,
        }
    }
}

/// The display name of a provider.
pub open spec fn provider_label(p: ProviderView) -> Seq<char> {
    match p {
        ProviderView::Sops => "sops"@,
        ProviderView::Agenix => "agenix"@,
        ProviderView::Custom(c) => "custom ("@ + c + ")"@,
        ProviderView::Undeclared => "none"@,
    }
}

impl SecretProvider {
    /// The display name (`sops`, `agenix`, `custom (<cmd>)`, `none`).
    pub fn label(&self) -> (s: String)
        ensures
            s@ == provider_label(self@),
    {
        match self {
            SecretProvider::Sops => String::from_str("sops"),
            SecretProvider::Agenix => String::from_str("agenix"),
            SecretProvider::Custom(c) => {
                let mut s = String::from_str("custom (");
                s.append(c.as_str());
                s.append(")");
                s
            },
            SecretProvider::Undeclared => String::from_str("none"),
        }
    }

    /// A copy of this provider.
    pub fn duplicate(&self) -> (r: SecretProvider)
        ensures
            r@ == self@,
    {
        match self {
            SecretProvider::Sops => SecretProvider::Sops,
            SecretProvider::Agenix => SecretProvider::Agenix,
            SecretProvider::Custom(c) => SecretProvider::Custom(c.clone()),
            SecretProvider::Undeclared => SecretProvider::Undeclared,
        }
    }
}

/// Verification status for a single secret item.
#[derive(Debug, Clone, PartialEq, Eq)]
pub struct SecretStatus {
    /// Secret name (the file name).
    pub name: String,
    /// Path to the encrypted secret file.
    pub path: String,
    /// Whether the file was successfully decrypted.
    pub decryptable: bool,
    /// Whether the target host's key is among the recipients.
    pub recipient_matched: bool,
    /// Descriptive error message if verification failed.
    pub error: Option<String>,
}

/// Aggregated secret verification report for a single host.
#[derive(Debug, Clone, PartialEq, Eq)]
pub struct SecretCheckReport {
    pub host_name: String,
    pub provider: SecretProvider,
    /// Total number of secrets examined.
    pub secrets_count: usize,
    /// True if all secrets are decryptable.
    pub valid: bool,
    pub details: Vec<SecretStatus>,
}

/// Options controlling the secret rekey operation.
#[derive(Debug, Clone, Copy, PartialEq, Eq)]
pub struct RekeyOptions {
    /// Preview rekey actions without modifying files on disk.
    pub dry_run: bool,
    /// Create `.bak` backup copies before rekeying.
    pub backup: bool,
}

impl Default for RekeyOptions {
    fn default() -> (r: RekeyOptions)
        ensures
            !r.dry_run && r.backup,
    {
        RekeyOptions { dry_run: false, backup: true }
    }
}

/// Outcome of rekeying secrets for a host.
#[derive(Debug, Clone, PartialEq, Eq)]
pub struct RekeyReport {
    pub host_name: String,
    pub provider: SecretProvider,
    /// Paths of the files rekeyed.
    pub files_rekeyed: Vec<String>,
    /// Whether rekeying succeeded.
    pub ok: bool,
    /// Error message if rekeying failed.
    pub error: Option<String>,
}

/// What the flake directory holds that decides its secrets provider.
#[derive(Debug, Clone, Copy, PartialEq, Eq)]
pub struct SecretLayout {
    /// `<flake>/.sops.yaml` exists.
    pub sops_yaml: bool,
    /// `<flake>/secrets` exists and is a directory.
    pub secrets_dir: bool,
    /// `<flake>/secrets.nix` exists.
    pub secrets_nix: bool,
    /// `<flake>/secrets.yaml` exists.
    pub root_secrets_yaml: bool,
}

/// One entry of the `<flake>/secrets` directory.
#[derive(Debug, Clone, PartialEq, Eq)]
pub struct SecretDirEntry {
    /// The entry's file name.
    pub file_name: String,
    /// The entry is a regular file.
    pub is_file: bool,
}

/// A candidate secret file: its path and its file name.
#[derive(Debug, Clone, PartialEq, Eq)]
pub struct SecretFile {
    pub path: String,
    pub name: String,
}

/// The provider a flake directory declares: SOPS for a `.sops.yaml` or a
/// `secrets/` directory, else agenix for a `secrets.nix`, else none.
pub open spec fn provider_of(layout: SecretLayout) -> ProviderView {
    if layout.sops_yaml || layout.secrets_dir {
        ProviderView::Sops
    } else if layout.secrets_nix {
        ProviderView::Agenix
    } else {
        ProviderView::Undeclared
    }
}

/// A file name a SOPS secret can have for `host`: a YAML, JSON or env file
/// named after the host or as a shared secret.
pub open spec fn sops_candidate(name: Seq<char>, host: Seq<char>) -> bool {
    (has_suffix(name, ".yaml"@) || has_suffix(name, ".json"@) || has_suffix(name, ".env"@)) && (
    has_infix(name, host) || has_infix(name, "common"@) || has_infix(name, "secrets"@) || has_infix(
        name,
        "default"@,
    ))
}

/// A file name whose extension is `age` (`Path::extension`: the part after
/// the last dot, when something precedes that dot).
pub open spec fn age_file(name: Seq<char>) -> bool {
    has_suffix(name, ".age"@) && name.len() > 4
}

/// A name a directory entry can carry: non-empty, without `/`, and neither
/// `.` nor `..`.
pub open spec fn entry_name_ok(name: Seq<char>) -> bool {
    &&& name.len() > 0
    &&& forall|i: int| 0 <= i < name.len() ==> name[i] != '/'
    &&& name != "."@
    &&& name != ".."@
}

/// The selected entries among the first `i`, as `(path, name)`.
pub open spec fn selected_upto(
    dir: Seq<char>,
    entries: Seq<SecretDirEntry>,
    host: Seq<char>,
    sops: bool,
    i: int,
) -> Seq<(Seq<char>, Seq<char>)>
    decreases i,
{
    if i <= 0 {
        Seq::empty()
    } else {
        let prev = selected_upto(dir, entries, host, sops, i - 1);
        let e = entries[i - 1];
        let keep = e.is_file && if sops {
            sops_candidate(e.file_name@, host)
        } else {
            age_file(e.file_name@)
        };
        if keep {
            prev.push((path_joined(dir, e.file_name@), e.file_name@))
        } else {
            prev
        }
    }
}

/// The candidate secret files of `host` under `provider`: for SOPS the
/// matching files of `secrets/` followed by a root `secrets.yaml`; for
/// agenix the `.age` files of `secrets/`; none otherwise.
pub open spec fn secret_files_of(
    flake: Seq<char>,
    host: Seq<char>,
    provider: ProviderView,
    layout: SecretLayout,
    entries: Seq<SecretDirEntry>,
) -> Seq<(Seq<char>, Seq<char>)> {
    let dir = path_joined(flake, "secrets"@);
    let listed = if layout.secrets_dir {
        entries
    } else {
        Seq::empty()
    };
    match provider {
        ProviderView::Sops => {
            let found = selected_upto(dir, listed, host, true, listed.len() as int);
            if layout.root_secrets_yaml {
                found.push((path_joined(flake, "secrets.yaml"@), "secrets.yaml"@))
            } else {
                found
            }
        },
        ProviderView::Agenix => selected_upto(dir, listed, host, false, listed.len() as int),
        _ => Seq::empty(),
    }
}

/// The `(path, name)` pairs of a list of secret files.
pub open spec fn file_views(v: Seq<SecretFile>) -> Seq<(Seq<char>, Seq<char>)> {
    v.map_values(|f: SecretFile| (f.path@, f.name@))
}

/// The adapter that detects and inspects host secrets.
#[derive(Debug, Clone, Copy, PartialEq, Eq)]
pub struct PluggableSecretStore;

impl PluggableSecretStore {
    /// Creates the store.
    pub fn new() -> (r: PluggableSecretStore) {
        PluggableSecretStore
    }

    /// Detects the secret provider a flake directory declares.
    pub fn detect_provider(layout: &SecretLayout) -> (p: SecretProvider)
        ensures
            p@ == provider_of(*layout),
    {
        if layout.sops_yaml || layout.secrets_dir {
            SecretProvider::Sops
        } else if layout.secrets_nix {
            SecretProvider::Agenix
        } else {
            SecretProvider::Undeclared
        }
    }

    /// Whether a `secrets/` entry is a candidate secret file.
    fn keeps(entry: &SecretDirEntry, host_name: &str, sops: bool) -> (r: bool)
        ensures
            r == (entry.is_file && if sops {
                sops_candidate(entry.file_name@, host_name@)
            } else {
                age_file(entry.file_name@)
            }),
    {
        if !entry.is_file {
            return false;
        }
        let name = entry.file_name.as_str();
        proof {
            reveal_strlit(".age");
        }
        if sops {
            (ends_with(name, ".yaml") || ends_with(name, ".json") || ends_with(name, ".env")) && (
            contains_str(name, host_name) || contains_str(name, "common") || contains_str(name, "secrets")
                || contains_str(name, "default"))
        } else {
            ends_with(name, ".age") && name.unicode_len() > 4
        }
    }

    /// Finds the candidate secret files for `host_name` among the entries of
    /// `<flake>/secrets` (listed only when it is a directory).
    pub fn find_secret_files(
        flake_path: &str,
        host_name: &str,
        provider: &SecretProvider,
        layout: &SecretLayout,
        entries: &Vec<SecretDirEntry>,
    ) -> (files: Vec<SecretFile>)
        requires
            forall|i: int| 0 <= i < entries@.len() ==> entry_name_ok(#[trigger] entries@[i].file_name@),
        ensures
            file_views(files@) == secret_files_of(flake_path@, host_name@, provider@, *layout, entries@),
            forall|i: int| 0 <= i < files@.len() ==> crate::text::plain_file_path(#[trigger] files@[i].path@),
    {
        proof {
            reveal_strlit("secrets");
            reveal_strlit("secrets.yaml");
        }
        let mut files: Vec<SecretFile> = Vec::new();
        let sops = match provider {
            SecretProvider::Sops => true,
            SecretProvider::Agenix => false,
            _ => {
                proof {
                    assert(file_views(files@) =~= Seq::<(Seq<char>, Seq<char>)>::empty());
                }
                return files;
            },
        };
        let dir = join_path(flake_path, "secrets");
        let ghost listed = if layout.secrets_dir { entries@ } else { Seq::<SecretDirEntry>::empty() };
        if layout.secrets_dir {
            let mut i: usize = 0;
            while i < entries.len()
                invariant
                    i <= entries@.len(),
                    dir@ == path_joined(flake_path@, "secrets"@),
                    forall|k: int| 0 <= k < entries@.len() ==> entry_name_ok(#[trigger] entries@[k].file_name@),
                    file_views(files@) == selected_upto(dir@, entries@, host_name@, sops, i as int),
                    forall|k: int| 0 <= k < files@.len() ==> crate::text::plain_file_path(#[trigger] files@[k].path@),
                decreases entries@.len() - i,
            {
                let e = &entries[i];
                if Self::keeps(e, host_name, sops) {
                    proof {
                        assert(entry_name_ok(entries@[i as int].file_name@));
                        crate::text::lemma_joined_plain(dir@, e.file_name@);
                    }
                    let ghost before = files@;
                    let path = join_path(dir.as_str(), e.file_name.as_str());
                    files.push(SecretFile { path, name: e.file_name.clone() });
                    proof {
                        assert(file_views(files@) =~= file_views(before).push((path_joined(dir@, e.file_name@), e.file_name@)));
                    }
                }
                i += 1;
            }
        } else {
            proof {
                assert(file_views(files@) =~= selected_upto(dir@, listed, host_name@, sops, 0));
            }
        }
        if sops && layout.root_secrets_yaml {
            let ghost before = files@;
            proof {
                let n = "secrets.yaml"@;
                reveal_strlit(".");
                reveal_strlit("..");
                assert(n.len() != "."@.len() && n.len() != ".."@.len());
                crate::text::lemma_joined_plain(flake_path@, n);
            }
            files.push(SecretFile { path: join_path(flake_path, "secrets.yaml"), name: String::from_str("secrets.yaml") });
            proof {
                assert(file_views(files@) =~= file_views(before).push((path_joined(flake_path@, "secrets.yaml"@), "secrets.yaml"@)));
            }
        }
        files
    }
}

/// The command-line tool of a provider that decrypts and rekeys files.
pub open spec fn tool_of(p: ProviderView) -> Option<Seq<char>> {
    match p {
        ProviderView::Sops => Some("sops"@),
        ProviderView::Agenix => Some("agenix"@),
        _ => None,
    }
}

/// What decrypting one file with `tool` tells: decryptable on a successful
/// run; otherwise the trimmed error output, a missing-tool hint, or the
/// failure to start.
pub open spec fn decrypt_verdict(tool: Seq<char>, outcome: Result<CommandOutput, SpawnError>) -> (bool, Option<Seq<char>>) {
    match outcome {
        Ok(out) => if out.success {
            (true, None)
        } else {
            (false, Some(trimmed(out.stderr@)))
        },
        Err(e) => if e.not_found {
            (false, Some(tool + " command not found in PATH (install "@ + tool + " to verify secrets)"@))
        } else {
            (false, Some("failed to run "@ + tool + ": "@ + e.message@))
        },
    }
}

/// The `Debug` text of an optional exit code (`Some(<code>)` or `None`).
pub open spec fn code_text(code: Option<i32>) -> Seq<char> {
    match code {
        Some(c) => "Some("@ + crate::text::signed_decimal(c as int) + ")"@,
        None => "None"@,
    }
}

/// What a rekey run tells: success, or the error that stops rekeying.
pub open spec fn rekey_verdict(outcome: Result<CommandOutput, SpawnError>) -> Result<(), Seq<char>> {
    match outcome {
        Ok(out) => if out.success {
            Ok(())
        } else {
            Err("rekey process exited with code "@ + code_text(out.code))
        },
        Err(e) => Err("failed to spawn rekey process: "@ + e.message@),
    }
}

/// Every status in `s` is decryptable.
pub open spec fn all_decryptable(s: Seq<SecretStatus>) -> bool {
    forall|i: int| 0 <= i < s.len() ==> (#[trigger] s[i]).decryptable
}

impl SecretCheckReport {
    /// The report of `host_name` under `provider` from the per-file
    /// statuses: it counts them and is valid when every file decrypted.
    pub fn from_statuses(host_name: &str, provider: SecretProvider, details: Vec<SecretStatus>) -> (r: SecretCheckReport)
        ensures
            r.host_name@ == host_name@,
            r.provider@ == provider@,
            r.details@ == details@,
            r.secrets_count == details@.len(),
            r.valid == all_decryptable(details@),
    {
        let mut valid = true;
        let mut i: usize = 0;
        while i < details.len()
            invariant
                i <= details@.len(),
                valid == all_decryptable(details@.take(i as int)),
            decreases details@.len() - i,
        {
            proof {
                assert(details@.take(i as int + 1)[i as int] == details@[i as int]);
                if all_decryptable(details@.take(i as int + 1)) {
                    assert forall|k: int| 0 <= k < i implies (#[trigger] details@.take(i as int)[k]).decryptable by {
                        assert(details@.take(i as int)[k] == details@.take(i as int + 1)[k]);
                    }
                }
            }
            if !details[i].decryptable {
                valid = false;
            }
            i += 1;
        }
        proof {
            assert(details@.take(details@.len() as int) =~= details@);
        }
        SecretCheckReport {
            host_name: host_name.to_owned(),
            provider,
            secrets_count: details.len(),
            valid,
            details,
        }
    }
}

impl RekeyReport {
    /// A finished rekey of `host_name`: every listed file rekeyed.
    pub fn finished(host_name: &str, provider: SecretProvider, files_rekeyed: Vec<String>) -> (r: RekeyReport)
        ensures
            r.host_name@ == host_name@,
            r.provider@ == provider@,
            r.files_rekeyed@ == files_rekeyed@,
            r.ok,
            r.error is None,
    {
        RekeyReport { host_name: host_name.to_owned(), provider, files_rekeyed, ok: true, error: None }
    }

    /// A rekey of `host_name` stopped by `error` after `files_rekeyed`.
    pub fn failed(host_name: &str, provider: SecretProvider, files_rekeyed: Vec<String>, error: String) -> (r: RekeyReport)
        ensures
            r.host_name@ == host_name@,
            r.provider@ == provider@,
            r.files_rekeyed@ == files_rekeyed@,
            !r.ok,
            r.error == Some(error),
    {
        RekeyReport { host_name: host_name.to_owned(), provider, files_rekeyed, ok: false, error: Some(error) }
    }
}

impl PluggableSecretStore {
    /// The command that decrypts `file`: `sops -d <file>` or
    /// `agenix -d <file>`; none for other providers.
    pub fn decrypt_invocation(provider: &SecretProvider, file: &SecretFile) -> (r: Option<Invocation>)
        ensures
            r is Some <==> tool_of(provider@) is Some,
            r matches Some(inv) ==> (tool_of(provider@) matches Some(t) && inv.program@ == t && views(inv.args@)
                == seq!["-d"@, file.path@] && inv.env@.len() == 0),
    {
        let program = match provider {
            SecretProvider::Sops => "sops",
            SecretProvider::Agenix => "agenix",
            _ => return None,
        };
        let mut args: Vec<String> = Vec::new();
        args.push(String::from_str("-d"));
        args.push(file.path.clone());
        proof {
            reveal_strlit("sops");
            reveal_strlit("agenix");
            assert(views(args@) =~= seq!["-d"@, file.path@]);
        }
        Some(Invocation::new(program, args))
    }

    /// The status of `file` after decrypting it with `tool` gave `outcome`;
    /// the key's recipients are taken as matched, since decryptability
    /// already proves the recipient's access.
    pub fn decrypt_status(tool: &str, file: &SecretFile, outcome: &Result<CommandOutput, SpawnError>) -> (s: SecretStatus)
        ensures
            s.name@ == file.name@,
            s.path@ == file.path@,
            (s.decryptable, crate::text::opt_view(s.error)) == decrypt_verdict(tool@, *outcome),
            s.recipient_matched,
    {
        let (decryptable, error) = match outcome {
            Ok(out) => if out.success {
                (true, None)
            } else {
                (false, Some(trim(out.stderr.as_str()).to_owned()))
            },
            Err(e) => if e.not_found {
                let mut m = tool.to_owned();
                m.append(" command not found in PATH (install ");
                m.append(tool);
                m.append(" to verify secrets)");
                (false, Some(m))
            } else {
                let mut m = String::from_str("failed to run ");
                m.append(tool);
                m.append(": ");
                m.append(e.message.as_str());
                (false, Some(m))
            },
        };
        SecretStatus {
            name: file.name.clone(),
            path: file.path.clone(),
            decryptable,
            recipient_matched: true,
            error,
        }
    }

    /// The status of `file` under a provider without a decrypt command.
    pub fn unchecked_status(file: &SecretFile) -> (s: SecretStatus)
        ensures
            s.name@ == file.name@,
            s.path@ == file.path@,
            s.decryptable,
            s.recipient_matched,
            s.error is None,
    {
        SecretStatus { name: file.name.clone(), path: file.path.clone(), decryptable: true, recipient_matched: true, error: None }
    }

    /// The command that rekeys `file`: `sops updatekeys -y <file>` or
    /// `agenix -r -i <file>`; none for other providers.
    pub fn rekey_invocation(provider: &SecretProvider, file: &str) -> (r: Option<Invocation>)
        ensures
            r is Some <==> tool_of(provider@) is Some,
            r matches Some(inv) ==> (tool_of(provider@) matches Some(t) && inv.program@ == t && inv.env@.len() == 0
                && views(inv.args@) == if provider@ is Sops {
                seq!["updatekeys"@, "-y"@, file@]
            } else {
                seq!["-r"@, "-i"@, file@]
            }),
    {
        proof {
            reveal_strlit("sops");
            reveal_strlit("agenix");
        }
        match provider {
            SecretProvider::Sops => {
                let mut args: Vec<String> = Vec::new();
                args.push(String::from_str("updatekeys"));
                args.push(String::from_str("-y"));
                args.push(file.to_owned());
                proof {
                    assert(views(args@) =~= seq!["updatekeys"@, "-y"@, file@]);
                }
                Some(Invocation::new("sops", args))
            },
            SecretProvider::Agenix => {
                let mut args: Vec<String> = Vec::new();
                args.push(String::from_str("-r"));
                args.push(String::from_str("-i"));
                args.push(file.to_owned());
                proof {
                    assert(views(args@) =~= seq!["-r"@, "-i"@, file@]);
                }
                Some(Invocation::new("agenix", args))
            },
            _ => None,
        }
    }

    /// Reads the outcome of a rekey run: `Ok` to go on, or the error that
    /// stops rekeying.
    pub fn read_rekey(outcome: &Result<CommandOutput, SpawnError>) -> (r: Result<(), String>)
        ensures
            match (r, rekey_verdict(*outcome)) {
                (Ok(()), Ok(())) => true,
                (Err(m), Err(t)) => m@ == t,
                _ => false,
            },
    {
        match outcome {
            Ok(out) => if out.success {
                Ok(())
            } else {
                let mut m = String::from_str("rekey process exited with code ");
                match out.code {
                    Some(c) => {
                        m.append("Some(");
                        m.append(crate::text::signed_decimal_string(c as i64).as_str());
                        m.append(")");
                    },
                    None => m.append("None"),
                }
                Err(m)
            },
            Err(e) => {
                let mut m = String::from_str("failed to spawn rekey process: ");
                m.append(e.message.as_str());
                Err(m)
            },
        }
    }
}

/// The next piece of outside work a rekey run asks for.
#[derive(Debug)]
pub enum RekeyAction {
    /// Nothing to do: ask for the next step.
    Skip,
    /// Copy `from` to `to`, ignoring failure, then ask for the next step.
    Backup { from: String, to: String },
    /// Run the command and report its outcome with `record_run`.
    Run(Invocation),
    /// The run is over.
    Done(RekeyReport),
}

/// Progress of rekeying the secret files of one host, file by file.
#[derive(Debug)]
pub struct RekeyRun {
    pub host_name: String,
    pub provider: SecretProvider,
    pub options: RekeyOptions,
    /// The files to rekey, in order.
    pub files: Vec<String>,
    /// Position of the file being worked on.
    pub next: usize,
    /// The backup of the current file was asked for.
    pub backed_up: bool,
    /// The files rekeyed so far.
    pub rekeyed: Vec<String>,
    /// The error that stopped the run.
    pub failure: Option<String>,
}

impl RekeyRun {
    /// The run is in a consistent state.
    pub open spec fn wf(self) -> bool {
        &&& self.next <= self.files@.len()
        &&& forall|i: int| 0 <= i < self.files@.len() ==> crate::text::plain_file_path(#[trigger] self.files@[i]@)
    }

    /// The run waits for the outcome of the rekey command of its current file.
    pub open spec fn awaiting_run(self) -> bool {
        &&& self.wf()
        &&& self.failure is None
        &&& self.next < self.files@.len()
        &&& !self.options.dry_run
        &&& (self.options.backup ==> self.backed_up)
        &&& tool_of(self.provider@) is Some
    }

    /// Starts rekeying `files` of `host_name`.
    pub fn start(host_name: &str, provider: SecretProvider, options: RekeyOptions, files: Vec<String>) -> (r: RekeyRun)
        requires
            forall|i: int| 0 <= i < files@.len() ==> crate::text::plain_file_path(#[trigger] files@[i]@),
        ensures
            r.wf(),
            r.host_name@ == host_name@,
            r.provider@ == provider@,
            r.options == options,
            r.files@ == files@,
            r.next == 0,
            !r.backed_up,
            r.rekeyed@.len() == 0,
            r.failure is None,
    {
        RekeyRun {
            host_name: host_name.to_owned(),
            provider,
            options,
            files,
            next: 0,
            backed_up: false,
            rekeyed: Vec::new(),
            failure: None,
        }
    }

    /// Decides the next step: the final report once a run failed or every
    /// file is done; in a dry run, the current file counts as rekeyed; with
    /// backups on, a copy to `<file>.bak` comes first; then the provider's
    /// rekey command, or nothing for a provider without one.
    pub fn step(&mut self) -> (a: RekeyAction)
        requires
            old(self).wf(),
        ensures
            final(self).wf(),
            final(self).host_name == old(self).host_name,
            final(self).provider == old(self).provider,
            final(self).options == old(self).options,
            final(self).files == old(self).files,
            final(self).failure == old(self).failure,
            old(self).failure matches Some(m) ==> (a matches RekeyAction::Done(rep) && rep.host_name@
                == old(self).host_name@ && rep.provider@ == old(self).provider@ && rep.files_rekeyed@
                == old(self).rekeyed@ && !rep.ok && rep.error == Some(m) && final(self).next == old(self).next
                && final(self).rekeyed@ == old(self).rekeyed@),
            old(self).failure is None && old(self).next == old(self).files@.len() ==> (a matches RekeyAction::Done(
                rep,
            ) && rep.host_name@ == old(self).host_name@ && rep.provider@ == old(self).provider@
                && rep.files_rekeyed@ == old(self).rekeyed@ && rep.ok && rep.error is None && final(self).next
                == old(self).next && final(self).rekeyed@ == old(self).rekeyed@),
            old(self).failure is None && old(self).next < old(self).files@.len() && old(self).options.dry_run ==> (
            a is Skip && final(self).next == old(self).next + 1 && final(self).rekeyed@ == old(
                self,
            ).rekeyed@.push(old(self).files@[old(self).next as int])),
            old(self).failure is None && old(self).next < old(self).files@.len() && !old(self).options.dry_run
                && old(self).options.backup && !old(self).backed_up ==> (a matches RekeyAction::Backup { from, to }
                && from@ == old(self).files@[old(self).next as int]@ && to@ == crate::text::with_extension_text(
                from@,
                "bak"@,
            ) && final(self).backed_up && final(self).next == old(self).next && final(self).rekeyed@ == old(
                self,
            ).rekeyed@),
            old(self).failure is None && old(self).next < old(self).files@.len() && !old(self).options.dry_run
                && (old(self).options.backup ==> old(self).backed_up) && tool_of(old(self).provider@) is None ==> (
            a is Skip && final(self).next == old(self).next + 1 && !final(self).backed_up && final(self).rekeyed@
                == old(self).rekeyed@),
            old(self).failure is None && old(self).next < old(self).files@.len() && !old(self).options.dry_run
                && (old(self).options.backup ==> old(self).backed_up) && tool_of(old(self).provider@) is Some ==> (
            a matches RekeyAction::Run(inv) && tool_of(old(self).provider@) == Some(inv.program@) && inv.env@.len()
                == 0 && views(inv.args@) == (if old(self).provider@ is Sops {
                seq!["updatekeys"@, "-y"@, old(self).files@[old(self).next as int]@]
            } else {
                seq!["-r"@, "-i"@, old(self).files@[old(self).next as int]@]
            }) && final(self).next == old(self).next && final(self).backed_up == old(self).backed_up
                && final(self).rekeyed@ == old(self).rekeyed@ && final(self).awaiting_run()),
    {
        match &self.failure {
            Some(m) => {
                let rep = RekeyReport::failed(
                    self.host_name.as_str(),
                    self.provider.duplicate(),
                    self.rekeyed.clone(),
                    m.clone(),
                );
                return RekeyAction::Done(rep);
            },
            None => {},
        }
        if self.next == self.files.len() {
            let rep = RekeyReport::finished(self.host_name.as_str(), self.provider.duplicate(), self.rekeyed.clone());
            return RekeyAction::Done(rep);
        }
        let file = self.files[self.next].clone();
        if self.options.dry_run {
            self.rekeyed.push(file);
            self.next = self.next + 1;
            return RekeyAction::Skip;
        }
        if self.options.backup && !self.backed_up {
            proof {
                assert(crate::text::plain_file_path(self.files@[self.next as int]@));
            }
            let to = crate::text::with_extension(file.as_str(), "bak");
            self.backed_up = true;
            return RekeyAction::Backup { from: file, to };
        }
        match Self::invocation_for(&self.provider, file.as_str()) {
            Some(inv) => RekeyAction::Run(inv),
            None => {
                self.next = self.next + 1;
                self.backed_up = false;
                RekeyAction::Skip
            },
        }
    }

    /// The rekey command of `file` under `provider`.
    fn invocation_for(provider: &SecretProvider, file: &str) -> (r: Option<Invocation>)
        ensures
            r is Some <==> tool_of(provider@) is Some,
            r matches Some(inv) ==> (tool_of(provider@) == Some(inv.program@) && inv.env@.len() == 0
                && views(inv.args@) == if provider@ is Sops {
                seq!["updatekeys"@, "-y"@, file@]
            } else {
                seq!["-r"@, "-i"@, file@]
            }),
    {
        PluggableSecretStore::rekey_invocation(provider, file)
    }

    /// Records the outcome of the current file's rekey command: a success
    /// counts the file and moves on; anything else stops the run with the
    /// reason.
    pub fn record_run(&mut self, outcome: &Result<CommandOutput, SpawnError>)
        requires
            old(self).awaiting_run(),
        ensures
            final(self).wf(),
            final(self).host_name == old(self).host_name,
            final(self).provider == old(self).provider,
            final(self).options == old(self).options,
            final(self).files == old(self).files,
            match rekey_verdict(*outcome) {
                Ok(()) => final(self).next == old(self).next + 1 && !final(self).backed_up && final(self).rekeyed@
                    == old(self).rekeyed@.push(old(self).files@[old(self).next as int]) && final(self).failure is None,
                Err(m) => final(self).next == old(self).next && final(self).rekeyed@ == old(self).rekeyed@
                    && (final(self).failure matches Some(f) && f@ == m),
            },
    {
        match PluggableSecretStore::read_rekey(outcome) {
            Ok(()) => {
                let file = self.files[self.next].clone();
                proof {
                    assert(self.files@.len() == self.files.len());
                }
                self.rekeyed.push(file);
                self.next = self.next + 1;
                self.backed_up = false;
            },
            Err(m) => {
                self.failure = Some(m);
            },
        }
    }
}

/// A SOPS secret name: a `.yaml`, `.json` or `.env` file whose name holds
/// the host name or one of `common`, `secrets`, `default`.
pub open spec fn shared_or_host_secret(name: Seq<char>, host: Seq<char>) -> bool {
    &&& (has_suffix(name, ".yaml"@) || has_suffix(name, ".json"@) || has_suffix(name, ".env"@))
    &&& (has_infix(name, host) || has_infix(name, "common"@) || has_infix(name, "secrets"@) || has_infix(name, "default"@))
}

/// Which entries of `secrets/` the SOPS selection keeps among the first
/// `i`: each regular file with a SOPS secret name, at its path under `dir`,
/// and nothing else.
proof fn lemma_sops_selection(dir: Seq<char>, entries: Seq<SecretDirEntry>, host: Seq<char>, i: int)
    requires
        0 <= i <= entries.len(),
    ensures
        forall|k: int|
            0 <= k < i && (#[trigger] entries[k]).is_file && shared_or_host_secret(entries[k].file_name@, host)
                ==> selected_upto(dir, entries, host, true, i).contains(
                (path_joined(dir, entries[k].file_name@), entries[k].file_name@),
            ),
        forall|x: (Seq<char>, Seq<char>)|
            #[trigger] selected_upto(dir, entries, host, true, i).contains(x) ==> exists|k: int|
                0 <= k < i && (#[trigger] entries[k]).is_file && shared_or_host_secret(entries[k].file_name@, host)
                    && x == (path_joined(dir, entries[k].file_name@), entries[k].file_name@),
    decreases i,
{
    if i > 0 {
        lemma_sops_selection(dir, entries, host, i - 1);
        let prev = selected_upto(dir, entries, host, true, i - 1);
        let cur = selected_upto(dir, entries, host, true, i);
        let e = entries[i - 1];
        let item = (path_joined(dir, e.file_name@), e.file_name@);
        if e.is_file && shared_or_host_secret(e.file_name@, host) {
            assert(cur == prev.push(item));
            assert(cur[prev.len() as int] == item);
            assert forall|k: int|
                0 <= k < i && (#[trigger] entries[k]).is_file && shared_or_host_secret(entries[k].file_name@, host)
                    implies cur.contains((path_joined(dir, entries[k].file_name@), entries[k].file_name@)) by {
                if k < i - 1 {
                    let p = choose|p: int| 0 <= p < prev.len() && prev[p] == (path_joined(dir, entries[k].file_name@), entries[k].file_name@);
                    assert(cur[p] == prev[p]);
                }
            }
            assert forall|x: (Seq<char>, Seq<char>)| #[trigger] cur.contains(x) implies exists|k: int|
                0 <= k < i && (#[trigger] entries[k]).is_file && shared_or_host_secret(entries[k].file_name@, host)
                    && x == (path_joined(dir, entries[k].file_name@), entries[k].file_name@) by {
                let p = choose|p: int| 0 <= p < cur.len() && cur[p] == x;
                if p < prev.len() {
                    assert(prev[p] == x);
                    assert(prev.contains(x));
                } else {
                    assert(x == item);
                    assert(entries[i - 1] == e);
                }
            }
        } else {
            assert(cur == prev);
        }
    }
}

/// SOPS picks the secret files of `secrets/` by name: a regular file with a
/// `.yaml`, `.json` or `.env` suffix is checked exactly when its name holds
/// the host name or one of `common`, `secrets`, `default`; so a shared
/// `secrets.yaml` is checked for every host.
pub proof fn lemma_sops_files(flake: Seq<char>, host: Seq<char>, layout: SecretLayout, entries: Seq<SecretDirEntry>)
    requires
        layout.secrets_dir,
    ensures
        ({
            let dir = path_joined(flake, "secrets"@);
            let found = secret_files_of(flake, host, ProviderView::Sops, layout, entries);
            &&& forall|k: int|
                0 <= k < entries.len() && (#[trigger] entries[k]).is_file && shared_or_host_secret(entries[k].file_name@, host)
                    ==> found.contains((path_joined(dir, entries[k].file_name@), entries[k].file_name@))
            &&& forall|k: int|
                0 <= k < entries.len() && (#[trigger] entries[k]).is_file && entries[k].file_name@ == "secrets.yaml"@
                    ==> found.contains((path_joined(dir, entries[k].file_name@), entries[k].file_name@))
            &&& forall|x: (Seq<char>, Seq<char>)|
                #[trigger] found.contains(x) ==> x == (path_joined(flake, "secrets.yaml"@), "secrets.yaml"@) || exists|k: int|
                    0 <= k < entries.len() && (#[trigger] entries[k]).is_file && shared_or_host_secret(entries[k].file_name@, host)
                        && x == (path_joined(dir, entries[k].file_name@), entries[k].file_name@)
        }),
{
    let dir = path_joined(flake, "secrets"@);
    let sel = selected_upto(dir, entries, host, true, entries.len() as int);
    let found = secret_files_of(flake, host, ProviderView::Sops, layout, entries);
    lemma_sops_selection(dir, entries, host, entries.len() as int);
    let root = (path_joined(flake, "secrets.yaml"@), "secrets.yaml"@);
    if layout.root_secrets_yaml {
        assert(found == sel.push(root));
    } else {
        assert(found == sel);
    }
    assert forall|k: int|
        0 <= k < entries.len() && (#[trigger] entries[k]).is_file && shared_or_host_secret(entries[k].file_name@, host)
            implies found.contains((path_joined(dir, entries[k].file_name@), entries[k].file_name@)) by {
        let x = (path_joined(dir, entries[k].file_name@), entries[k].file_name@);
        assert(sel.contains(x));
        let p = choose|p: int| 0 <= p < sel.len() && sel[p] == x;
        assert(found[p] == x);
    }
    assert forall|k: int|
        0 <= k < entries.len() && (#[trigger] entries[k]).is_file && entries[k].file_name@ == "secrets.yaml"@
            implies found.contains((path_joined(dir, entries[k].file_name@), entries[k].file_name@)) by {
        let n = entries[k].file_name@;
        reveal_strlit("secrets.yaml");
        reveal_strlit(".yaml");
        reveal_strlit("secrets");
        assert(n.skip(n.len() - 5) =~= ".yaml"@);
        assert(n.subrange(0, 7) =~= "secrets"@);
        assert(crate::text::occurs_at(n, "secrets"@, 0));
        assert(shared_or_host_secret(n, host));
    }
    assert forall|x: (Seq<char>, Seq<char>)| #[trigger] found.contains(x) implies x == root || exists|k: int|
        0 <= k < entries.len() && (#[trigger] entries[k]).is_file && shared_or_host_secret(entries[k].file_name@, host)
            && x == (path_joined(dir, entries[k].file_name@), entries[k].file_name@) by {
        let p = choose|p: int| 0 <= p < found.len() && found[p] == x;
        if p < sel.len() {
            assert(sel[p] == x);
            assert(sel.contains(x));
        }
    }
}

} // verus!
