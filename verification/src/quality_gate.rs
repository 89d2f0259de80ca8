//! Quality checks over a flake before deployment: `nixfmt` and `statix` only
//! warn, a `deadnix` failure stops the run. This module assembles each check's
//! command line and judges its outcome; running it is the caller's.

use vstd::prelude::*;
use crate::errors::{ErrorClass, NodError};
use crate::process::{Invocation, SpawnError};
use crate::text::{path_pushed, push_path, str_eq, views};

verus! {

/// Runs the formatting, dead-code and anti-pattern gates over a flake.
#[derive(Debug, Clone, Copy, PartialEq, Eq)]
pub struct QualityGate;

/// How one gate run ended.
#[derive(Debug, Clone, Copy, PartialEq, Eq, Structural)]
pub enum GateClassification {
    /// The command launched and exited 0.
    Pass,
    /// The command could not be launched (missing binary, spawn error).
    LaunchError,
    /// The command launched but exited non-zero.
    FailedCheck,
}

/// The file to check for `flake_path`: its `flake.nix` when it is a
/// directory, else the path itself.
pub open spec fn target_file(flake_path: Seq<char>, is_dir: bool) -> Seq<char> {
    if is_dir {
        path_pushed(flake_path, "flake.nix"@)
    } else {
        flake_path
    }
}

/// The classification of a gate's status: `Ok(success)` when it launched.
pub open spec fn classified(status: Result<bool, SpawnError>) -> GateClassification {
    match status {
        Err(_) => GateClassification::LaunchError,
        Ok(false) => GateClassification::FailedCheck,
        Ok(true) => GateClassification::Pass,
    }
}

/// The note of a warn-only gate that reported issues.
pub open spec fn failure_note(tool: Seq<char>) -> Seq<char> {
    if tool == "nixfmt"@ {
        "reported formatting issues."@
    } else if tool == "statix"@ {
        "reported anti-patterns."@
    } else {
        "reported issues."@
    }
}

/// The warning a warn-only gate shows, or none when it passed; a launch
/// failure says so explicitly rather than passing silently.
pub open spec fn warning_text(tool: Seq<char>, kind: GateClassification) -> Option<Seq<char>> {
    match kind {
        GateClassification::Pass => None,
        GateClassification::LaunchError => Some("⚠ "@ + tool + " not found; skipping "@ + tool + " check"@),
        GateClassification::FailedCheck => Some("⚠ "@ + tool + " "@ + failure_note(tool)),
    }
}

impl QualityGate {
    /// Resolves the file the gates run over: `flake.nix` inside
    /// `flake_path` when that is a directory (`is_dir`), else the path.
    pub fn resolve_target_file(flake_path: &str, is_dir: bool) -> (r: String)
        ensures
            r@ == target_file(flake_path@, is_dir),
    {
        if is_dir {
            push_path(flake_path, "flake.nix")
        } else {
            flake_path.to_owned()
        }
    }

    /// `nixfmt --check <target>` (run only when the target file exists).
    pub fn nixfmt_invocation(target: &str) -> (r: Invocation)
        ensures
            r.program@ == "nixfmt"@,
            views(r.args@) == seq!["--check"@, target@],
            r.env@.len() == 0,
    {
        let mut args: Vec<String> = Vec::new();
        args.push(String::from_str("--check"));
        args.push(target.to_owned());
        proof {
            assert(views(args@) =~= seq!["--check"@, target@]);
        }
        Invocation::new("nixfmt", args)
    }

    /// `deadnix --fail <flake_path>`.
    pub fn deadnix_invocation(flake_path: &str) -> (r: Invocation)
        ensures
            r.program@ == "deadnix"@,
            views(r.args@) == seq!["--fail"@, flake_path@],
            r.env@.len() == 0,
    {
        let mut args: Vec<String> = Vec::new();
        args.push(String::from_str("--fail"));
        args.push(flake_path.to_owned());
        proof {
            assert(views(args@) =~= seq!["--fail"@, flake_path@]);
        }
        Invocation::new("deadnix", args)
    }

    /// `statix check <flake_path>`.
    pub fn statix_invocation(flake_path: &str) -> (r: Invocation)
        ensures
            r.program@ == "statix"@,
            views(r.args@) == seq!["check"@, flake_path@],
            r.env@.len() == 0,
    {
        let mut args: Vec<String> = Vec::new();
        args.push(String::from_str("check"));
        args.push(flake_path.to_owned());
        proof {
            assert(views(args@) =~= seq!["check"@, flake_path@]);
        }
        Invocation::new("statix", args)
    }
}

/// Classifies a gate's status, shared by the warn-only and the hard gates.
pub fn classify(status: &Result<bool, SpawnError>) -> (c: GateClassification)
    ensures
        c == classified(*status),
{
    match status {
        Err(_) => GateClassification::LaunchError,
        Ok(false) => GateClassification::FailedCheck,
        Ok(true) => GateClassification::Pass,
    }
}

/// The warning of a warn-only gate (`nixfmt`, `statix`), or `None` when it
/// passed.
pub fn gate_warning(tool: &str, kind: GateClassification) -> (r: Option<String>)
    ensures
        match warning_text(tool@, kind) {
            Some(t) => r matches Some(s) && s@ == t,
            None => r is None,
        },
{
    match kind {
        GateClassification::Pass => None,
        GateClassification::LaunchError => {
            let mut s = String::from_str("⚠ ");
            s.append(tool);
            s.append(" not found; skipping ");
            s.append(tool);
            s.append(" check");
            Some(s)
        },
        GateClassification::FailedCheck => {
            let note = if str_eq(tool, "nixfmt") {
                "reported formatting issues."
            } else if str_eq(tool, "statix") {
                "reported anti-patterns."
            } else {
                "reported issues."
            };
            let mut s = String::from_str("⚠ ");
            s.append(tool);
            s.append(" ");
            s.append(note);
            Some(s)
        },
    }
}

/// The hard gate: `deadnix` failing to launch, or finding dead code, is an
/// evaluation error.
pub fn deadnix_gate(status: &Result<bool, SpawnError>) -> (r: Result<(), NodError>)
    ensures
        match classified(*status) {
            GateClassification::Pass => r is Ok,
            GateClassification::LaunchError => r matches Err(e) && e.is(
                ErrorClass::Evaluation,
                "deadnix check could not run: failed to launch `deadnix`"@,
            ),
            GateClassification::FailedCheck => r matches Err(e) && e.is(
                ErrorClass::Evaluation,
                "deadnix check failed (dead code detected)."@,
            ),
        },
{
    match classify(status) {
        GateClassification::Pass => Ok(()),
        GateClassification::LaunchError => Err(
            NodError::evaluation("deadnix check could not run: failed to launch `deadnix`"),
        ),
        GateClassification::FailedCheck => Err(NodError::evaluation("deadnix check failed (dead code detected).")),
    }
}

/// A warn-only gate never fails the run: whatever its status, the outcome
/// is at most a warning, and only a pass goes without one.
pub proof fn lemma_warn_gates_only_warn(tool: Seq<char>, status: Result<bool, SpawnError>)
    ensures
        warning_text(tool, classified(status)) is None <==> status == Ok::<bool, SpawnError>(true),
{
}

} // verus!
