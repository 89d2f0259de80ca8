//! The deployment audit log: entries, where the log file lives, and how a
//! read selects from it (newest first, optionally one host, optionally the
//! newest few). Reading and writing the file is the caller's.

use vstd::prelude::*;
use crate::text::{path_pushed, push_path, str_eq};

verus! {

/// One recorded deployment outcome in the audit log.
#[derive(Debug, Clone, PartialEq, Eq)]
pub struct AuditEntry {
    /// The host that was deployed.
    pub host_name: String,
    /// The terminal outcome (`completed`, `rolled_back`, `failed`, ...).
    pub outcome: String,
    /// Unix time (whole seconds) the entry was recorded at.
    pub recorded_at: u64,
}

impl AuditEntry {
    /// Builds an entry for `host_name`/`outcome` at `recorded_at` unix seconds.
    pub fn new(host_name: &str, outcome: &str, recorded_at: u64) -> (e: AuditEntry)
        ensures
            e.host_name@ == host_name@,
            e.outcome@ == outcome@,
            e.recorded_at == recorded_at,
    {
        AuditEntry { host_name: host_name.to_owned(), outcome: outcome.to_owned(), recorded_at }
    }
}

/// History backed by a JSON array file at `path`.
#[derive(Debug, Clone, PartialEq, Eq)]
pub struct JsonHistoryStore {
    pub path: String,
}

/// The default log location for the home directory `home`:
/// `$HOME/.local/share/nod/history.json`, or `./.nod/history.json` when
/// `HOME` is unset (or `.`).
pub open spec fn default_history_path(home: Option<Seq<char>>) -> Seq<char> {
    let h = match home {
        Some(x) => x,
        None => "."@,
    };
    if h == "."@ {
        path_pushed(path_pushed("."@, ".nod"@), "history.json"@)
    } else {
        path_pushed(path_pushed(path_pushed(path_pushed(h, ".local"@), "share"@), "nod"@), "history.json"@)
    }
}

impl JsonHistoryStore {
    /// A store at the default location for the home directory `home` (the
    /// value of `HOME`, if set).
    pub fn new(home: Option<&str>) -> (s: JsonHistoryStore)
        ensures
            s.path@ == default_history_path(
                match home {
                    Some(h) => Some(h@),
                    None => None,
                },
            ),
    {
        let h = match home {
            Some(x) => x,
            None => ".",
        };
        let path = if str_eq(h, ".") {
            let a = push_path(".", ".nod");
            push_path(a.as_str(), "history.json")
        } else {
            let a = push_path(h, ".local");
            let b = push_path(a.as_str(), "share");
            let c = push_path(b.as_str(), "nod");
            push_path(c.as_str(), "history.json")
        };
        JsonHistoryStore { path }
    }

    /// A store at an explicit `path`.
    pub fn at(path: &str) -> (s: JsonHistoryStore)
        ensures
            s.path@ == path@,
    {
        JsonHistoryStore { path: path.to_owned() }
    }
}

/// Entry `e` passes the host filter `host`.
pub open spec fn passes(e: AuditEntry, host: Option<Seq<char>>) -> bool {
    match host {
        Some(h) => e.host_name@ == h,
        None => true,
    }
}

/// The entries of the append-ordered log `all` that pass `host`, newest
/// first.
pub open spec fn newest_first(all: Seq<AuditEntry>, host: Option<Seq<char>>) -> Seq<AuditEntry>
    decreases all.len(),
{
    if all.len() == 0 {
        Seq::empty()
    } else if passes(all.last(), host) {
        seq![all.last()] + newest_first(all.drop_last(), host)
    } else {
        newest_first(all.drop_last(), host)
    }
}

/// The first `limit` of `s`, or all of it without a limit.
pub open spec fn capped(s: Seq<AuditEntry>, limit: Option<usize>) -> Seq<AuditEntry> {
    match limit {
        Some(n) => if n < s.len() {
            s.take(n as int)
        } else {
            s
        },
        None => s,
    }
}

/// What a read of the log `all` returns: the entries of `host` (or all),
/// newest first, at most `limit` of them.
pub fn select_entries(all: Vec<AuditEntry>, host: Option<&str>, limit: Option<usize>) -> (r: Vec<AuditEntry>)
    ensures
        r@ == capped(
            newest_first(
                all@,
                match host {
                    Some(h) => Some(h@),
                    None => None,
                },
            ),
            limit,
        ),
{
    let ghost hv = match host {
        Some(h) => Some(h@),
        None => None,
    };
    let ghost all0 = all@;
    let mut rest = all;
    let mut out: Vec<AuditEntry> = Vec::new();
    while rest.len() > 0
        invariant
            out@ + newest_first(rest@, hv) == newest_first(all0, hv),
            hv == match host {
                Some(h) => Some(h@),
                None => None,
            },
        decreases rest@.len(),
    {
        let ghost before = rest@;
        let e = rest.pop().unwrap();
        proof {
            assert(before.drop_last() =~= rest@);
            assert(before.last() == e);
        }
        let keep = match host {
            Some(h) => str_eq(e.host_name.as_str(), h),
            None => true,
        };
        proof {
            assert(keep == passes(e, hv));
            if keep {
                assert(newest_first(before, hv) == seq![e] + newest_first(rest@, hv));
            } else {
                assert(newest_first(before, hv) == newest_first(rest@, hv));
            }
        }
        if keep {
            let ghost o = out@;
            out.push(e);
            proof {
                assert(o.push(e) + newest_first(rest@, hv) =~= o + (seq![e] + newest_first(rest@, hv)));
            }
        }
    }
    proof {
        assert(out@ + newest_first(rest@, hv) =~= out@);
    }
    match limit {
        Some(n) => {
            out.truncate(n);
        },
        None => {},
    }
    out
}

/// Every entry a read returns passes its host filter.
pub proof fn lemma_selection_matches_filter(all: Seq<AuditEntry>, host: Option<Seq<char>>)
    ensures
        forall|i: int| 0 <= i < newest_first(all, host).len() ==> passes(#[trigger] newest_first(all, host)[i], host),
    decreases all.len(),
{
    if all.len() > 0 {
        lemma_selection_matches_filter(all.drop_last(), host);
        let rest = newest_first(all.drop_last(), host);
        if passes(all.last(), host) {
            assert forall|i: int| 0 <= i < newest_first(all, host).len() implies passes(
                #[trigger] newest_first(all, host)[i],
                host,
            ) by {
                if i > 0 {
                    assert(newest_first(all, host)[i] == rest[i - 1]);
                }
            }
        }
    }
}

/// The entry recorded last is the first a read returns, when it passes the
/// read's host filter.
pub proof fn lemma_latest_record_leads(all: Seq<AuditEntry>, e: AuditEntry, host: Option<Seq<char>>, limit: Option<usize>)
    requires
        passes(e, host),
        limit != Some(0usize),
    ensures
        capped(newest_first(all.push(e), host), limit).len() > 0,
        capped(newest_first(all.push(e), host), limit)[0] == e,
{
    let s = all.push(e);
    assert(s.last() == e);
    assert(s.drop_last() =~= all);
}

} // verus!
