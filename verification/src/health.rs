//! Post-activation health of a local system from the systemd probes:
//! `systemctl is-system-running`, `systemctl --failed` and `systemctl
//! is-active` for each required unit. A host is healthy only when the system
//! is up, no unit failed and every required unit is active.

use vstd::prelude::*;
use crate::errors::{ErrorClass, NodError};
use crate::host::HostEntity;
use crate::process::{CommandOutput, Invocation, SpawnError};
use crate::scan::{lines_of, parse_unsigned, split_lines, split_words, words_of};
use crate::text::{has_suffix, joined, trim, trimmed, views};

verus! {

/// Verifies a live local system via the systemd probes.
#[derive(Debug, Clone, Copy, PartialEq, Eq)]
pub struct SystemdHealthChecker;

/// The system is up: `running` or `degraded`.
pub open spec fn system_up(state: Seq<char>) -> bool {
    state == "running"@ || state == "degraded"@
}

/// A row of `systemctl --failed` that is the column header or the
/// `N ... units listed.` summary.
pub open spec fn header_or_summary(cols: Seq<Seq<char>>) -> bool {
    cols[0] == "UNIT"@ || (parse_unsigned(cols[0], usize::MAX as nat) is Some && has_suffix(
        joined(cols.skip(1), " "@),
        "units listed."@,
    ))
}

/// The failed unit a row names, if it names one: a row of at least four
/// columns, not the header or summary, whose `ACTIVE` or `SUB` column reads
/// `failed`.
pub open spec fn failed_in_row(cols: Seq<Seq<char>>) -> Option<Seq<char>> {
    if cols.len() < 4 || header_or_summary(cols) {
        None
    } else if cols[2] == "failed"@ || cols[3] == "failed"@ {
        Some(cols[0])
    } else {
        None
    }
}

/// The failed units the first `i` lines name, in order.
pub open spec fn failed_upto(lines: Seq<Seq<char>>, i: int) -> Seq<Seq<char>>
    decreases i,
{
    if i <= 0 {
        Seq::empty()
    } else {
        let prev = failed_upto(lines, i - 1);
        match failed_in_row(words_of(lines[i - 1])) {
            Some(u) => prev.push(u),
            None => prev,
        }
    }
}

/// The failed units `systemctl --failed` output names.
pub open spec fn failed_units_of(output: Seq<char>) -> Seq<Seq<char>> {
    failed_upto(lines_of(output), lines_of(output).len() as int)
}

/// Every required unit is active.
pub open spec fn all_active(required: Seq<bool>) -> bool {
    forall|i: int| 0 <= i < required.len() ==> #[trigger] required[i]
}

impl SystemdHealthChecker {
    /// Builds the checker.
    pub fn new() -> (r: SystemdHealthChecker) {
        SystemdHealthChecker
    }

    /// Reaches a health verdict from a reported systemd state and the
    /// failed-unit rows: `running`/`degraded` count as "the system is up";
    /// any failed unit flips the verdict to unhealthy.
    pub fn healthy(state: &str, failed_units: &Vec<String>) -> (r: bool)
        ensures
            r == (system_up(state@) && failed_units@.len() == 0),
    {
        let up = crate::text::str_eq(state, "running") || crate::text::str_eq(state, "degraded");
        up && failed_units.len() == 0
    }

    /// The failed unit a row of `systemctl --failed` names.
    fn failed_in(cols: &Vec<String>) -> (r: Option<String>)
        ensures
            match failed_in_row(views(cols@)) {
                Some(u) => r matches Some(x) && x@ == u,
                None => r is None,
            },
    {
        if cols.len() < 4 {
            return None;
        }
        proof {
            assert(views(cols@)[0] == cols@[0]@);
            assert(views(cols@)[2] == cols@[2]@);
            assert(views(cols@)[3] == cols@[3]@);
        }
        if crate::text::str_eq(cols[0].as_str(), "UNIT") {
            return None;
        }
        if crate::scan::parse_unsigned_exec(cols[0].as_str(), usize::MAX as u64).is_some() {
            let mut rest: Vec<String> = Vec::new();
            let mut i: usize = 1;
            while i < cols.len()
                invariant
                    1 <= i <= cols@.len(),
                    views(rest@) == views(cols@).subrange(1, i as int),
                decreases cols@.len() - i,
            {
                let ghost before = rest@;
                rest.push(cols[i].clone());
                proof {
                    assert(views(rest@) =~= views(before).push(cols@[i as int]@));
                    assert(views(cols@).subrange(1, i + 1) =~= views(cols@).subrange(1, i as int).push(cols@[i as int]@));
                }
                i += 1;
            }
            proof {
                assert(views(cols@).subrange(1, cols@.len() as int) =~= views(cols@).skip(1));
            }
            let line = crate::text::join(&rest, " ");
            if crate::text::ends_with(line.as_str(), "units listed.") {
                return None;
            }
        }
        if crate::text::str_eq(cols[2].as_str(), "failed") || crate::text::str_eq(cols[3].as_str(), "failed") {
            Some(cols[0].clone())
        } else {
            None
        }
    }

    /// Extracts the failed-unit names from `systemctl --failed` output by
    /// reading the `UNIT`, `ACTIVE` and `SUB` columns instead of relying on
    /// the leading bullet glyph that systemd omits when colour is disabled
    /// on a pipe. A row counts as a failed unit when its `ACTIVE` or `SUB`
    /// column reads `failed`; the header and the "N units listed." summary
    /// rows are skipped. The summary is recognised by its first token
    /// parsing as a count, so a failed unit whose name starts with a digit
    /// is kept.
    pub fn failed_units(output: &str) -> (units: Vec<String>)
        ensures
            views(units@) == failed_units_of(output@),
    {
        let lines = split_lines(output);
        let ghost lv = views(lines@);
        let mut failed: Vec<String> = Vec::new();
        let mut i: usize = 0;
        while i < lines.len()
            invariant
                lv == views(lines@),
                i <= lines@.len(),
                views(failed@) == failed_upto(lv, i as int),
            decreases lines@.len() - i,
        {
            let cols = split_words(lines[i].as_str());
            proof {
                assert(lv[i as int] == lines@[i as int]@);
            }
            match Self::failed_in(&cols) {
                Some(u) => {
                    let ghost before = failed@;
                    failed.push(u);
                    proof {
                        assert(views(failed@) =~= views(before).push(failed@[failed@.len() - 1]@));
                    }
                },
                None => {},
            }
            i += 1;
        }
        failed
    }

    /// The verdict over the local systemd probes: unhealthy when any
    /// required unit is not active, else as [`healthy`](Self::healthy).
    pub fn healthy_with_required(state: &str, failed_units: &Vec<String>, required_active: &Vec<bool>) -> (r: bool)
        ensures
            r == (all_active(required_active@) && system_up(state@) && failed_units@.len() == 0),
    {
        let mut i: usize = 0;
        while i < required_active.len()
            invariant
                i <= required_active@.len(),
                forall|k: int| 0 <= k < i ==> #[trigger] required_active@[k],
            decreases required_active@.len() - i,
        {
            if !required_active[i] {
                return false;
            }
            i += 1;
        }
        Self::healthy(state, failed_units)
    }

    /// Whether the health check of `host` can start: a remote host is a
    /// health-check error (systemd is a local surface); an explicitly
    /// disabled check is healthy at once (`Some(true)`); otherwise the probes
    /// run (`None`).
    pub fn precheck(host: &HostEntity) -> (r: Result<Option<bool>, NodError>)
        ensures
            !host.is_local ==> (r matches Err(e) && e.is(
                ErrorClass::HealthCheck,
                "host '"@ + host.name@ + "' is remote; the systemd checker only verifies local systems"@,
            )),
            host.is_local && host.nod_config.health_checks.enable == Some(false) ==> r == Ok::<Option<bool>, NodError>(
                Some(true),
            ),
            host.is_local && host.nod_config.health_checks.enable != Some(false) ==> r == Ok::<
                Option<bool>,
                NodError,
            >(None),
    {
        if !host.is_local {
            let mut d = String::from_str("host '");
            d.append(host.name.as_str());
            d.append("' is remote; the systemd checker only verifies local systems");
            return Err(NodError::healthcheck(d.as_str()));
        }
        match host.nod_config.health_checks.enable {
            Some(false) => Ok(Some(true)),
            _ => Ok(None),
        }
    }

    /// `systemctl is-system-running`.
    pub fn state_invocation() -> (inv: Invocation)
        ensures
            inv.program@ == "systemctl"@,
            views(inv.args@) == seq!["is-system-running"@],
            inv.env@.len() == 0,
    {
        let mut args: Vec<String> = Vec::new();
        args.push(String::from_str("is-system-running"));
        proof {
            assert(views(args@) =~= seq!["is-system-running"@]);
        }
        Invocation::new("systemctl", args)
    }

    /// Reads the state probe: the trimmed output, whatever the exit status.
    pub fn read_state(outcome: &Result<CommandOutput, SpawnError>) -> (r: Result<String, NodError>)
        ensures
            match outcome {
                Err(_) => r matches Err(e) && e.is(ErrorClass::HealthCheck, "failed to launch `systemctl`"@),
                Ok(out) => r matches Ok(s) && s@ == trimmed(out.stdout@),
            },
    {
        match outcome {
            Err(_) => Err(NodError::healthcheck("failed to launch `systemctl`")),
            Ok(out) => Ok(trim(out.stdout.as_str()).to_owned()),
        }
    }

    /// `systemctl --failed --no-pager`.
    pub fn failed_invocation() -> (inv: Invocation)
        ensures
            inv.program@ == "systemctl"@,
            views(inv.args@) == seq!["--failed"@, "--no-pager"@],
            inv.env@.len() == 0,
    {
        let mut args: Vec<String> = Vec::new();
        args.push(String::from_str("--failed"));
        args.push(String::from_str("--no-pager"));
        proof {
            assert(views(args@) =~= seq!["--failed"@, "--no-pager"@]);
        }
        Invocation::new("systemctl", args)
    }

    /// Reads the failed-unit probe: the failed units its output names.
    pub fn read_failed(outcome: &Result<CommandOutput, SpawnError>) -> (r: Result<Vec<String>, NodError>)
        ensures
            match outcome {
                Err(_) => r matches Err(e) && e.is(ErrorClass::HealthCheck, "failed to launch `systemctl --failed`"@),
                Ok(out) => r matches Ok(u) && views(u@) == failed_units_of(out.stdout@),
            },
    {
        match outcome {
            Err(_) => Err(NodError::healthcheck("failed to launch `systemctl --failed`")),
            Ok(out) => Ok(Self::failed_units(out.stdout.as_str())),
        }
    }

    /// `systemctl is-active --quiet <unit>` for each required unit of `host`.
    pub fn required_invocations(host: &HostEntity) -> (invs: Vec<Invocation>)
        ensures
            match host.nod_config.health_checks.systemd.required_units {
                Some(units) => invs@.len() == units@.len() && forall|i: int| 0 <= i < units@.len() ==> {
                    let inv = #[trigger] invs@[i];
                    &&& inv.program@ == "systemctl"@
                    &&& views(inv.args@) == seq!["is-active"@, "--quiet"@, units@[i]@]
                    &&& inv.env@.len() == 0
                },
                None => invs@.len() == 0,
            },
    {
        let mut invs: Vec<Invocation> = Vec::new();
        match &host.nod_config.health_checks.systemd.required_units {
            Some(units) => {
                let mut i: usize = 0;
                while i < units.len()
                    invariant
                        i <= units@.len(),
                        invs@.len() == i,
                        forall|k: int| 0 <= k < i ==> {
                            let inv = #[trigger] invs@[k];
                            &&& inv.program@ == "systemctl"@
                            &&& views(inv.args@) == seq!["is-active"@, "--quiet"@, units@[k]@]
                            &&& inv.env@.len() == 0
                        },
                    decreases units@.len() - i,
                {
                    let mut args: Vec<String> = Vec::new();
                    args.push(String::from_str("is-active"));
                    args.push(String::from_str("--quiet"));
                    args.push(units[i].clone());
                    proof {
                        assert(views(args@) =~= seq!["is-active"@, "--quiet"@, units@[i as int]@]);
                    }
                    invs.push(Invocation::new("systemctl", args));
                    i += 1;
                }
            },
            None => {},
        }
        invs
    }

    /// A required unit is active when its probe ran and succeeded.
    pub fn read_required(outcome: &Result<CommandOutput, SpawnError>) -> (active: bool)
        ensures
            active == (outcome matches Ok(out) && out.success),
    {
        match outcome {
            Ok(out) => out.success,
            Err(_) => false,
        }
    }
}

} // verus!
