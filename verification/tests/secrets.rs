use nod::process::{CommandOutput, SpawnError};
use nod::secrets::{
    PluggableSecretStore, RekeyAction, RekeyOptions, RekeyRun, SecretCheckReport, SecretDirEntry, SecretFile,
    SecretLayout, SecretProvider, SecretStatus,
};

fn layout(sops_yaml: bool, secrets_dir: bool, secrets_nix: bool, root_secrets_yaml: bool) -> SecretLayout {
    SecretLayout { sops_yaml, secrets_dir, secrets_nix, root_secrets_yaml }
}

fn ok() -> Result<CommandOutput, SpawnError> {
    Ok(CommandOutput { success: true, code: Some(0), stdout: String::new(), stderr: String::new() })
}

#[test]
fn detect_provider_prefers_sops_then_agenix() {
    assert_eq!(PluggableSecretStore::detect_provider(&layout(true, false, true, false)), SecretProvider::Sops);
    assert_eq!(PluggableSecretStore::detect_provider(&layout(false, true, false, false)), SecretProvider::Sops);
    assert_eq!(PluggableSecretStore::detect_provider(&layout(false, false, true, false)), SecretProvider::Agenix);
    assert_eq!(PluggableSecretStore::detect_provider(&layout(false, false, false, true)), SecretProvider::Undeclared);
}

#[test]
fn sops_candidates_match_host_or_shared_names() {
    let entries = vec![
        SecretDirEntry { file_name: "atlas.yaml".to_string(), is_file: true },
        SecretDirEntry { file_name: "common.json".to_string(), is_file: true },
        SecretDirEntry { file_name: "orbit.yaml".to_string(), is_file: true },
        SecretDirEntry { file_name: "notes.txt".to_string(), is_file: true },
        SecretDirEntry { file_name: "atlas-dir.yaml".to_string(), is_file: false },
    ];
    let files = PluggableSecretStore::find_secret_files("/f", "atlas", &SecretProvider::Sops, &layout(true, true, false, false), &entries);
    let names: Vec<&str> = files.iter().map(|f| f.name.as_str()).collect();
    assert_eq!(names, ["atlas.yaml", "common.json"]);
    assert_eq!(files[0].path, "/f/secrets/atlas.yaml");
}

#[test]
fn check_report_is_valid_only_when_every_secret_decrypts() {
    let good = SecretStatus { name: "a".to_string(), path: "/a".to_string(), decryptable: true, recipient_matched: true, error: None };
    let bad = SecretStatus { decryptable: false, error: Some("no key".to_string()), ..good.clone() };
    let r = SecretCheckReport::from_statuses("atlas", SecretProvider::Sops, vec![good.clone(), bad]);
    assert_eq!(r.secrets_count, 2);
    assert!(!r.valid);
    let r = SecretCheckReport::from_statuses("atlas", SecretProvider::Sops, vec![good]);
    assert!(r.valid);
}

#[test]
fn decrypt_commands_per_provider() {
    let file = SecretFile { path: "/f/secrets/a.yaml".to_string(), name: "a.yaml".to_string() };
    let inv = PluggableSecretStore::decrypt_invocation(&SecretProvider::Sops, &file).unwrap();
    assert_eq!(inv.program, "sops");
    assert_eq!(inv.args, ["-d", "/f/secrets/a.yaml"]);
    assert!(PluggableSecretStore::decrypt_invocation(&SecretProvider::Undeclared, &file).is_none());
    let missing: Result<CommandOutput, SpawnError> = Err(SpawnError { not_found: true, message: "x".to_string() });
    let s = PluggableSecretStore::decrypt_status("sops", &file, &missing);
    assert!(!s.decryptable);
    assert!(s.error.unwrap().contains("sops"));
    assert!(PluggableSecretStore::decrypt_status("sops", &file, &ok()).decryptable);
}

#[test]
fn rekey_commands_per_provider() {
    let sops = PluggableSecretStore::rekey_invocation(&SecretProvider::Sops, "/f/a.yaml").unwrap();
    assert_eq!(sops.args, ["updatekeys", "-y", "/f/a.yaml"]);
    let age = PluggableSecretStore::rekey_invocation(&SecretProvider::Agenix, "/f/a.age").unwrap();
    assert_eq!((age.program.as_str(), age.args.clone()), ("agenix", vec!["-r".to_string(), "-i".to_string(), "/f/a.age".to_string()]));
}

fn drive(mut run: RekeyRun) -> (Vec<String>, nod::secrets::RekeyReport) {
    let mut trace = Vec::new();
    loop {
        match run.step() {
            RekeyAction::Skip => trace.push("skip".to_string()),
            RekeyAction::Backup { from, to } => trace.push(format!("backup {from} {to}")),
            RekeyAction::Run(inv) => {
                trace.push(format!("run {}", inv.program));
                run.record_run(&ok());
            },
            RekeyAction::Done(report) => return (trace, report),
        }
    }
}

#[test]
fn rekey_run_backs_up_then_rekeys_each_file() {
    let run = RekeyRun::start("atlas", SecretProvider::Sops, RekeyOptions::default(), vec!["/f/a.yaml".to_string(), "/f/b.yaml".to_string()]);
    let (trace, report) = drive(run);
    assert!(trace.contains(&"backup /f/a.yaml /f/a.bak".to_string()));
    assert_eq!(trace.iter().filter(|t| t.starts_with("run")).count(), 2);
    assert!(report.ok);
    assert_eq!(report.files_rekeyed, vec!["/f/a.yaml".to_string(), "/f/b.yaml".to_string()]);
}

#[test]
fn dry_run_rekey_runs_nothing_but_lists_every_file() {
    let opts = RekeyOptions { dry_run: true, backup: true };
    let run = RekeyRun::start("atlas", SecretProvider::Sops, opts, vec!["/f/a.yaml".to_string()]);
    let (trace, report) = drive(run);
    assert!(trace.iter().all(|t| !t.starts_with("run") && !t.starts_with("backup")));
    assert!(report.ok);
    assert_eq!(report.files_rekeyed, vec!["/f/a.yaml".to_string()]);
}

#[test]
fn failed_rekey_stops_with_the_error() {
    let opts = RekeyOptions { dry_run: false, backup: false };
    let mut run = RekeyRun::start("atlas", SecretProvider::Agenix, opts, vec!["/f/a.age".to_string(), "/f/b.age".to_string()]);
    loop {
        match run.step() {
            RekeyAction::Run(_) => run.record_run(&Ok(CommandOutput { success: false, code: Some(3), stdout: String::new(), stderr: String::new() })),
            RekeyAction::Done(report) => {
                assert!(!report.ok);
                assert!(report.files_rekeyed.is_empty());
                assert!(report.error.unwrap().contains("3"));
                break;
            },
            _ => {},
        }
    }
}

#[test]
fn provider_labels() {
    assert_eq!(SecretProvider::Sops.label(), "sops");
    assert_eq!(SecretProvider::Agenix.label(), "agenix");
}

#[test]
fn detect_provider_finds_sops_yaml() {
    assert_eq!(PluggableSecretStore::detect_provider(&layout(true, false, false, false)), SecretProvider::Sops);
}

#[test]
fn detect_provider_returns_none_for_empty_dir() {
    let empty = layout(false, false, false, false);
    let provider = PluggableSecretStore::detect_provider(&empty);
    let files = PluggableSecretStore::find_secret_files("/tmp/empty", "yorke", &provider, &empty, &vec![]);
    assert!(files.is_empty());
    let report = SecretCheckReport::from_statuses("yorke", provider, vec![]);
    assert_eq!(report.provider, SecretProvider::Undeclared);
    assert_eq!(report.secrets_count, 0);
    assert!(report.valid);
}
