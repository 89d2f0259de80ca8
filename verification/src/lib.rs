//! `nod`: fleet orchestration logic for NixOS deployments — host model,
//! connection settings, deployment plans and the text formats exchanged
//! with `ssh`, `nix` and `systemctl`.

pub mod text;
pub mod scan;
pub mod errors;
pub mod config;
pub mod host;
pub mod levels;
pub mod plan;
pub mod ssh_args;
pub mod json;
pub mod process;
pub mod flake;
pub mod secrets;
pub mod evaluator;
pub mod generation;
pub mod deploy;
pub mod cache;
pub mod provision;
pub mod health;
pub mod dashboard;
pub mod topology;
pub mod toml_config;
pub mod quality_gate;
pub mod history;
pub mod records;
