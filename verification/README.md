# nod

Fleet orchestration for NixOS deployments: host discovery, deployment
plans and waves, SSH connection settings, flake lockfile inspection,
generations and garbage collection, secrets, health checks, topology
exports and an interactive dashboard.

## Layout

- `src/` — the library, verified with Verus. Every command line the tool
  runs is built here as an `Invocation`, and every outcome it reads
  (`CommandOutput` or `SpawnError`) is judged here, with contracts that say
  exactly which arguments are passed and what each outcome means.
  Multi-step work alternating with processes (secret rekeying) is a state
  machine whose steps say what to run next.
  - `plan.rs`, `levels.rs` — deployment plans, dependency levels (Kahn
    layering) and rollout waves, with the laws that waves cover the levels
    and respect every dependency.
  - `toml_config.rs` — the `.nod.toml` store and the four-tier precedence
    cascade (CLI > host section > `[fleet]` > `[defaults]` > flake metadata).
  - `topology.rs` — Mermaid, DOT and Ansible renderings (ordered, de-duplicated
    groups) and Prometheus target groups.
  - `flake.rs`, `evaluator.rs`, `generation.rs`, `deploy.rs`, `health.rs`,
    `secrets.rs`, `provision.rs`, `quality_gate.rs`, `history.rs` — the
    adapters' command lines and output readers.
  - `text.rs`, `scan.rs`, `json.rs` — verified string, line, number and JSON
    helpers.
- `app/` — the program: process spawning, files, TOML/JSON decoding, the
  async ports, the terminal dashboard and the command line.
- `tests/` — tests of the library.
