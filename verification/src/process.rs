//! External commands as plain values: what to run, and what came back.
//!
//! The library decides which program runs with which arguments and what a
//! finished run means; spawning and waiting are the caller's.

use vstd::prelude::*;
use crate::text::views;

verus! {

/// A program to run with its arguments and extra environment variables.
#[derive(Debug, Clone, PartialEq, Eq)]
pub struct Invocation {
    pub program: String,
    pub args: Vec<String>,
    /// Environment variables set for the child, as `(name, value)`.
    pub env: Vec<(String, String)>,
}

/// What a finished child process reported. `stdout` and `stderr` are the
/// captured streams, decoded lossily as UTF-8.
#[derive(Debug, Clone, PartialEq, Eq)]
pub struct CommandOutput {
    pub success: bool,
    /// The exit code, when the process exited normally.
    pub code: Option<i32>,
    pub stdout: String,
    pub stderr: String,
}

/// Why a child process could not be started.
#[derive(Debug, Clone, PartialEq, Eq)]
pub struct SpawnError {
    /// The program was not found on `PATH`.
    pub not_found: bool,
    /// The display text of the underlying I/O error.
    pub message: String,
}

/// The environment pairs of an invocation, as text.
pub open spec fn env_view(env: Seq<(String, String)>) -> Seq<(Seq<char>, Seq<char>)> {
    env.map_values(|p: (String, String)| (p.0@, p.1@))
}

impl Invocation {
    /// `program` with `args` and no extra environment.
    pub fn new(program: &str, args: Vec<String>) -> (r: Invocation)
        ensures
            r.program@ == program@,
            views(r.args@) == views(args@),
            r.env@.len() == 0,
    {
        Invocation { program: program.to_owned(), args, env: Vec::new() }
    }
}

} // verus!
