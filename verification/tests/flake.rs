use nod::flake::{FlakeInputNode, FlakeMetadata, FlakeUpdateReport, InputDelta, NixCliFlakeStore};
use nod::process::{CommandOutput, SpawnError};

#[test]
fn short_rev_truncates_to_seven_characters() {
    let node = FlakeInputNode {
        name: "nixpkgs".to_string(),
        original_url: "github:NixOS/nixpkgs".to_string(),
        locked_rev: Some("a831408e6378bc02ebf8cc09b52c96ca86f6bab4".to_string()),
        locked_ref: Some("nixpkgs-unstable".to_string()),
        last_modified: Some(1787364730),
        nar_hash: None,
        follows: vec![],
        is_direct: true,
    };
    assert_eq!(node.short_rev(), Some("a831408"));

    let meta = FlakeMetadata {
        path: "/etc/nixos".to_string(),
        url: None,
        revision: Some("e22212867d89909a438af05fbd9a9b3c9dbd3d0b".to_string()),
        rev_count: Some(1663),
        last_modified: Some(1787600890),
        lock_version: 7,
        total_inputs: 15,
        direct_inputs: 8,
    };
    assert_eq!(meta.short_rev(), Some("e222128"));
}

#[test]
fn input_delta_identifies_changes() {
    let delta = InputDelta {
        name: "nod".to_string(),
        old_rev: Some("510c94e24e2c65d213e1f4e58272a3214a4458b6".to_string()),
        new_rev: Some("c1cc7a0e4088d124944ab02cba50d5a801d3fb31".to_string()),
        old_last_modified: Some(1787598405),
        new_last_modified: Some(1787599609),
    };
    assert!(delta.is_changed());
    assert_eq!(delta.short_old_rev(), Some("510c94e"));
    assert_eq!(delta.short_new_rev(), Some("c1cc7a0"));

    let report = FlakeUpdateReport::from_deltas(vec![delta]);
    assert_eq!(report.updated_count, 1);
    assert!(!report.unchanged);
}

const SAMPLE_METADATA_JSON: &str = r#"{
    "locks": {
        "nodes": {
            "nixpkgs": {
                "locked": {
                    "lastModified": 1787364730,
                    "narHash": "sha256-abc",
                    "owner": "NixOS",
                    "repo": "nixpkgs",
                    "rev": "a831408e6378bc02ebf8cc09b52c96ca86f6bab4",
                    "type": "github"
                },
                "original": {
                    "owner": "NixOS",
                    "ref": "nixpkgs-unstable",
                    "repo": "nixpkgs",
                    "type": "github"
                }
            },
            "root": {
                "inputs": {
                    "nixpkgs": "nixpkgs"
                }
            }
        },
        "root": "root",
        "version": 7
    },
    "path": "/etc/nixos",
    "revCount": 42,
    "revision": "e22212867d89909a438af05fbd9a9b3c9dbd3d0b",
    "lastModified": 1787600890
}"#;

#[test]
fn parse_metadata_json_extracts_root_and_inputs() {
    let (meta, inputs) = NixCliFlakeStore::parse_metadata_json(SAMPLE_METADATA_JSON).unwrap();
    assert_eq!(meta.path, "/etc/nixos");
    assert_eq!(meta.rev_count, Some(42));
    assert_eq!(meta.lock_version, 7);
    assert_eq!(meta.total_inputs, 1);
    assert_eq!(meta.direct_inputs, 1);

    assert_eq!(inputs.len(), 1);
    let pkgs = &inputs[0];
    assert_eq!(pkgs.name, "nixpkgs");
    assert_eq!(pkgs.original_url, "github:NixOS/nixpkgs/nixpkgs-unstable");
    assert_eq!(pkgs.short_rev(), Some("a831408"));
    assert!(pkgs.is_direct);
}

#[test]
fn malformed_metadata_json_is_an_error() {
    assert!(NixCliFlakeStore::parse_metadata_json("{ not json").is_err());
}

#[test]
fn metadata_invocation_runs_nix_flake_metadata() {
    let inv = NixCliFlakeStore::metadata_invocation("/etc/nixos");
    assert_eq!(inv.program, "nix");
    assert_eq!(inv.args, ["flake", "metadata", "--json", "/etc/nixos"]);
}

#[test]
fn failed_metadata_run_is_an_error_and_launch_failure_too() {
    let failed = Ok(CommandOutput { success: false, code: Some(1), stdout: String::new(), stderr: "boom".to_string() });
    assert!(NixCliFlakeStore::read_metadata(&failed).is_err());
    let missing: Result<CommandOutput, SpawnError> = Err(SpawnError { not_found: true, message: "nope".to_string() });
    assert!(NixCliFlakeStore::read_metadata(&missing).is_err());
    let ok = Ok(CommandOutput { success: true, code: Some(0), stdout: SAMPLE_METADATA_JSON.to_string(), stderr: String::new() });
    assert_eq!(NixCliFlakeStore::read_metadata(&ok).unwrap().1.len(), 1);
}

fn node(name: &str, rev: &str, modified: u64) -> FlakeInputNode {
    FlakeInputNode {
        name: name.to_string(),
        original_url: String::new(),
        locked_rev: Some(rev.to_string()),
        locked_ref: None,
        last_modified: Some(modified),
        nar_hash: None,
        follows: vec![],
        is_direct: true,
    }
}

#[test]
fn update_report_keeps_only_changed_inputs() {
    let old = vec![node("a", "1111111aaa", 1), node("b", "2222222bbb", 2)];
    let new = vec![node("a", "1111111aaa", 1), node("b", "3333333ccc", 3), node("c", "4444444ddd", 4)];
    let report = NixCliFlakeStore::update_report(&old, &new);
    assert_eq!(report.updated_count, 2);
    assert_eq!(report.deltas[0].name, "b");
    assert_eq!(report.deltas[0].short_old_rev(), Some("2222222"));
    assert_eq!(report.deltas[1].name, "c");
    assert_eq!(report.deltas[1].old_rev, None);
    let same = NixCliFlakeStore::update_report(&old, &old);
    assert!(same.unchanged);
}
