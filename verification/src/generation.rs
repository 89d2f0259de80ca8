//! NixOS system generations and store management: the generations a host
//! records, garbage collection and closure copying, and the reading of
//! `stat` output over the system profile links.

use vstd::prelude::*;
use crate::scan::{first_at, has_prefix, parse_unsigned, split_lines, split_words, strip_char, strip_prefixes, strip_suffixes, lines_of, words_of};
use crate::text::{trimmed, views};

verus! {

/// An individual NixOS profile generation recorded on a host.
#[derive(Debug, Clone, PartialEq, Eq)]
pub struct SystemGeneration {
    /// Incremental generation number (e.g. `120`).
    pub generation: u32,
    /// True if this generation is currently active.
    pub is_current: bool,
    /// Epoch timestamp when the generation link was created.
    pub created_at: Option<u64>,
    /// Store path of the generation's toplevel closure.
    pub closure_path: String,
}

/// Generation history belonging to a specific fleet host.
#[derive(Debug, Clone, PartialEq, Eq)]
pub struct HostGenerations {
    pub host_name: String,
    pub generations: Vec<SystemGeneration>,
}

/// Parameters controlling garbage collection on a host.
#[derive(Debug, Clone, PartialEq, Eq)]
pub struct GcOptions {
    /// Age filter (e.g. `14d`).
    pub older_than: Option<String>,
    /// Number of recent generations to preserve.
    pub keep: Option<usize>,
    /// Only preview what would be freed.
    pub dry_run: bool,
    /// Concurrency budget for multi-host collection.
    pub concurrency: usize,
}

impl Default for GcOptions {
    fn default() -> (r: GcOptions)
        ensures
            r.older_than is None && r.keep is None && !r.dry_run && r.concurrency == 4,
    {
        GcOptions { older_than: None, keep: None, dry_run: false, concurrency: 4 }
    }
}

/// Outcome of a garbage collection run on a single host.
#[derive(Debug, Clone, PartialEq, Eq)]
pub struct GcReport {
    pub host_name: String,
    pub success: bool,
    pub output_summary: String,
}

/// Parameters controlling closure copying to/from a host.
#[derive(Debug, Clone, PartialEq, Eq)]
pub struct CopyOptions {
    /// Destination store URL (e.g. `ssh://user@host` or a binary cache).
    pub to: Option<String>,
    /// Source store URL.
    pub from: Option<String>,
}

impl Default for CopyOptions {
    fn default() -> (r: CopyOptions)
        ensures
            r.to is None && r.from is None,
    {
        CopyOptions { to: None, from: None }
    }
}

/// Outcome of a closure copying operation on a single host.
#[derive(Debug, Clone, PartialEq, Eq)]
pub struct CopyReport {
    pub host_name: String,
    pub closure_path: String,
    pub success: bool,
}

/// Mathematical form of a [`SystemGeneration`].
pub struct GenerationView {
    pub generation: u32,
    pub is_current: bool,
    pub created_at: Option<u64>,
    pub closure_path: Seq<char>,
}

impl View for SystemGeneration {
    type V = GenerationView;

    open spec fn view(&self) -> GenerationView {
        GenerationView {
            generation: self.generation,
            is_current: self.is_current,
            created_at: self.created_at,
            closure_path: self.closure_path@,
        }
    }
}

/// The views of a list of generations.
pub open spec fn generation_views(v: Seq<SystemGeneration>) -> Seq<GenerationView> {
    v.map_values(|g: SystemGeneration| g@)
}

/// The `u32` a text denotes, if any (`str::parse::<u32>`).
pub open spec fn parse_u32(s: Seq<char>) -> Option<u32> {
    match parse_unsigned(s, 0xffff_ffff) {
        Some(v) => Some(v as u32),
        None => None,
    }
}

/// The `u64` a text denotes, if any (`str::parse::<u64>`).
pub open spec fn parse_u64(s: Seq<char>) -> Option<u64> {
    match parse_unsigned(s, 0xffff_ffff_ffff_ffff) {
        Some(v) => Some(v as u64),
        None => None,
    }
}

/// The generation the system profile link of a trimmed `stat` line points
/// at: the number between the first `system-` and the next `-link`.
pub open spec fn current_in_line(t: Seq<char>) -> Option<u32> {
    if has_prefix(t, "/nix/var/nix/profiles/system "@) {
        let idx = first_at(t, "system-"@);
        if idx >= 0 {
            let rest = t.skip(idx + 7);
            let end = first_at(rest, "-link"@);
            if end >= 0 {
                parse_u32(rest.take(end))
            } else {
                None
            }
        } else {
            None
        }
    } else {
        None
    }
}

/// The active generation named by the last line among the first `i` that
/// names one.
pub open spec fn current_upto(lines: Seq<Seq<char>>, i: int) -> Option<u32>
    decreases i,
{
    if i <= 0 {
        None
    } else {
        match current_in_line(trimmed(lines[i - 1])) {
            Some(g) => Some(g),
            None => current_upto(lines, i - 1),
        }
    }
}

/// The generation a trimmed `stat` line of a `system-<N>-link` describes:
/// its number, modification time and link target, when the line has all
/// three.
pub open spec fn generation_in_line(t: Seq<char>, current: Option<u32>) -> Option<GenerationView> {
    let p = "/nix/var/nix/profiles/system-"@;
    let parts = words_of(t);
    if !has_prefix(t, p) || parts.len() < 3 {
        None
    } else {
        match parse_u32(strip_suffixes(strip_prefixes(parts[0], p), "-link"@)) {
            None => None,
            Some(g) => {
                let idx = first_at(t, "->"@);
                let target = if idx >= 0 {
                    strip_char(strip_char(trimmed(t.skip(idx + 2)), '\''), '"')
                } else {
                    Seq::empty()
                };
                if target.len() == 0 {
                    None
                } else {
                    Some(
                        GenerationView {
                            generation: g,
                            is_current: current == Some(g),
                            created_at: parse_u64(parts[1]),
                            closure_path: target,
                        },
                    )
                }
            },
        }
    }
}

/// The generations the first `i` lines describe, in line order.
pub open spec fn generations_upto(lines: Seq<Seq<char>>, current: Option<u32>, i: int) -> Seq<GenerationView>
    decreases i,
{
    if i <= 0 {
        Seq::empty()
    } else {
        let prev = generations_upto(lines, current, i - 1);
        match generation_in_line(trimmed(lines[i - 1]), current) {
            Some(g) => prev.push(g),
            None => prev,
        }
    }
}

/// The first position in `s` whose generation is below `g`, or `s.len()`.
pub open spec fn first_below(s: Seq<GenerationView>, g: u32) -> int
    decreases s.len(),
{
    if s.len() == 0 {
        0
    } else if s[0].generation < g {
        0
    } else {
        1 + first_below(s.drop_first(), g)
    }
}

/// `s` ordered newest first, equal generations kept in their order (a
/// stable sort by descending generation).
pub open spec fn newest_first(s: Seq<GenerationView>) -> Seq<GenerationView>
    decreases s.len(),
{
    if s.len() == 0 {
        Seq::empty()
    } else {
        let sorted = newest_first(s.drop_last());
        sorted.insert(first_below(sorted, s.last().generation), s.last())
    }
}

/// `s` is ordered by descending generation.
pub open spec fn descending(s: Seq<GenerationView>) -> bool {
    forall|i: int, j: int| 0 <= i < j < s.len() ==> (#[trigger] s[i]).generation >= (#[trigger] s[j]).generation
}

/// The generations `stat -c '%n %Y %N' /nix/var/nix/profiles/system*`
/// prints: one per `system-<N>-link` line, the one the `system` link points
/// at marked current, newest first.
pub open spec fn stat_generations(output: Seq<char>) -> Seq<GenerationView> {
    let lines = lines_of(output);
    newest_first(generations_upto(lines, current_upto(lines, lines.len() as int), lines.len() as int))
}

proof fn lemma_first_below(s: Seq<GenerationView>, g: u32)
    ensures
        0 <= first_below(s, g) <= s.len(),
        forall|i: int| 0 <= i < first_below(s, g) ==> (#[trigger] s[i]).generation >= g,
        first_below(s, g) < s.len() ==> s[first_below(s, g)].generation < g,
    decreases s.len(),
{
    if s.len() > 0 && s[0].generation >= g {
        lemma_first_below(s.drop_first(), g);
        assert forall|i: int| 0 <= i < first_below(s, g) implies (#[trigger] s[i]).generation >= g by {
            if i > 0 {
                assert(s[i] == s.drop_first()[i - 1]);
            }
        }
    }
}

/// Sorting newest first yields a descending sequence.
pub proof fn lemma_newest_first_descending(s: Seq<GenerationView>)
    ensures
        descending(newest_first(s)),
        newest_first(s).len() == s.len(),
    decreases s.len(),
{
    if s.len() > 0 {
        let sorted = newest_first(s.drop_last());
        lemma_newest_first_descending(s.drop_last());
        let x = s.last();
        let p = first_below(sorted, x.generation);
        lemma_first_below(sorted, x.generation);
        let r = sorted.insert(p, x);
        assert forall|i: int, j: int| 0 <= i < j < r.len() implies (#[trigger] r[i]).generation >= (#[trigger] r[j]).generation by {
            if j < p {
                assert(r[i] == sorted[i] && r[j] == sorted[j]);
            } else if j == p {
                assert(r[i] == sorted[i]);
            } else if i == p {
                assert(r[j] == sorted[j - 1]);
                assert(sorted[p].generation < x.generation);
                if j - 1 > p {
                    assert(sorted[p].generation >= sorted[j - 1].generation);
                }
            } else if i < p {
                assert(r[i] == sorted[i] && r[j] == sorted[j - 1]);
            } else {
                assert(r[i] == sorted[i - 1] && r[j] == sorted[j - 1]);
            }
        }
    }
}

/// The generation a trimmed line describes.
fn generation_from_line(t: &str, current: Option<u32>) -> (r: Option<SystemGeneration>)
    ensures
        match generation_in_line(t@, current) {
            Some(g) => r matches Some(x) && x@ == g,
            None => r is None,
        },
{
    let p = "/nix/var/nix/profiles/system-";
    if !crate::scan::starts_with(t, p) {
        return None;
    }
    let parts = split_words(t);
    if parts.len() < 3 {
        return None;
    }
    let a = crate::scan::trim_start_matches(parts[0].as_str(), p);
    let gen_str = crate::scan::trim_end_matches(a.as_str(), "-link");
    let generation: u32 = match crate::scan::parse_unsigned_exec(gen_str.as_str(), 0xffff_ffff) {
        Some(g) => g as u32,
        None => return None,
    };
    let created_at = crate::scan::parse_unsigned_exec(parts[1].as_str(), 0xffff_ffff_ffff_ffff);
    let target: String = match crate::scan::find(t, "->") {
        Some(idx) => {
            proof {
                crate::scan::lemma_first_at_bound(t@, "->"@);
                reveal_strlit("->");
            }
            let n = t.unicode_len();
            let tail = t.substring_char(idx + 2, n);
            proof {
                assert(tail@ =~= t@.skip(idx + 2));
            }
            let a = crate::scan::trim_matches(crate::text::trim(tail), '\'');
            crate::scan::trim_matches(a.as_str(), '"')
        },
        None => String::new(),
    };
    if target.unicode_len() == 0 {
        return None;
    }
    Some(
        SystemGeneration {
            generation,
            is_current: match current {
                Some(c) => c == generation,
                None => false,
            },
            created_at,
            closure_path: target,
        },
    )
}

/// The generation the system profile link of a trimmed line points at.
fn current_from_line(t: &str) -> (r: Option<u32>)
    ensures
        r == current_in_line(t@),
{
    if !crate::scan::starts_with(t, "/nix/var/nix/profiles/system ") {
        return None;
    }
    let idx = match crate::scan::find(t, "system-") {
        Some(i) => i,
        None => return None,
    };
    proof {
        crate::scan::lemma_first_at_bound(t@, "system-"@);
        reveal_strlit("system-");
    }
    let n = t.unicode_len();
    let rest = t.substring_char(idx + 7, n);
    proof {
        assert(rest@ =~= t@.skip(idx + 7));
    }
    let end = match crate::scan::find(rest, "-link") {
        Some(e) => e,
        None => return None,
    };
    proof {
        crate::scan::lemma_first_at_bound(rest@, "-link"@);
    }
    let num = rest.substring_char(0, end);
    proof {
        assert(num@ =~= rest@.take(end as int));
    }
    match crate::scan::parse_unsigned_exec(num, 0xffff_ffff) {
        Some(g) => Some(g as u32),
        None => None,
    }
}

/// Parses the output of `stat -c "%n %Y %N" /nix/var/nix/profiles/system*`
/// into the host's generations, newest first.
pub fn parse_system_profiles_stat_output(output: &str) -> (gens: Vec<SystemGeneration>)
    ensures
        generation_views(gens@) == stat_generations(output@),
        descending(generation_views(gens@)),
{
    let lines = split_lines(output);
    let ghost lv = views(lines@);
    let mut current: Option<u32> = None;
    let mut i: usize = 0;
    while i < lines.len()
        invariant
            lv == views(lines@),
            i <= lines@.len(),
            current == current_upto(lv, i as int),
        decreases lines@.len() - i,
    {
        let found = current_from_line(crate::text::trim(lines[i].as_str()));
        if found.is_some() {
            current = found;
        }
        i += 1;
        proof {
            assert(lv[i - 1] == lines@[i - 1]@);
        }
    }
    let mut gens: Vec<SystemGeneration> = Vec::new();
    let mut k: usize = 0;
    proof {
        assert(generation_views(gens@) =~= newest_first(generations_upto(lv, current, 0)));
    }
    while k < lines.len()
        invariant
            lv == views(lines@),
            k <= lines@.len(),
            generation_views(gens@) == newest_first(generations_upto(lv, current, k as int)),
        decreases lines@.len() - k,
    {
        proof {
            assert(lv[k as int] == lines@[k as int]@);
        }
        match generation_from_line(crate::text::trim(lines[k].as_str()), current) {
            Some(g) => {
                let ghost before = generation_views(gens@);
                let mut p: usize = 0;
                proof {
                    assert(before.skip(0) =~= before);
                }
                while p < gens.len() && gens[p].generation >= g.generation
                    invariant
                        p <= gens@.len(),
                        before == generation_views(gens@),
                        first_below(before, g.generation) == p + first_below(before.skip(p as int), g.generation),
                    decreases gens@.len() - p,
                {
                    proof {
                        assert(before.skip(p as int).drop_first() =~= before.skip(p as int + 1));
                        assert(before.skip(p as int)[0] == before[p as int]);
                    }
                    p += 1;
                }
                proof {
                    if p < gens@.len() {
                        assert(before.skip(p as int)[0] == before[p as int]);
                    }
                    assert(first_below(before, g.generation) == p);
                }
                let ghost gv = g@;
                gens.insert(p, g);
                proof {
                    assert(generation_views(gens@) =~= before.insert(p as int, gv));
                    let prev = generations_upto(lv, current, k as int);
                    assert(generations_upto(lv, current, k as int + 1) == prev.push(gv));
                    assert(prev.push(gv).drop_last() =~= prev);
                }
            },
            None => {
                proof {
                    assert(generations_upto(lv, current, k as int + 1) == generations_upto(lv, current, k as int));
                }
            },
        }
        k += 1;
    }
    proof {
        assert(lv == lines_of(output@));
        lemma_newest_first_descending(generations_upto(lv, current, lines@.len() as int));
    }
    gens
}

/// A line of a `system-<N>-link` never names the active generation: only
/// the line of the `system` link itself (its path followed by a space) does.
pub proof fn lemma_generation_links_name_no_active(t: Seq<char>)
    ensures
        has_prefix(t, "/nix/var/nix/profiles/system-"@) ==> current_in_line(t) is None,
        current_in_line(t) is Some ==> has_prefix(t, "/nix/var/nix/profiles/system "@),
{
    reveal_strlit("/nix/var/nix/profiles/system-");
    reveal_strlit("/nix/var/nix/profiles/system ");
    if has_prefix(t, "/nix/var/nix/profiles/system-"@) && has_prefix(t, "/nix/var/nix/profiles/system "@) {
        assert(t[28] == "/nix/var/nix/profiles/system-"@[28]);
        assert(t[28] == "/nix/var/nix/profiles/system "@[28]);
    }
}

/// The active generation is named by the line of the `system` link.
proof fn lemma_current_from_system_line(lines: Seq<Seq<char>>, i: int)
    ensures
        current_upto(lines, i) is Some ==> exists|j: int|
            0 <= j < i && has_prefix(#[trigger] trimmed(lines[j]), "/nix/var/nix/profiles/system "@),
    decreases i,
{
    if i > 0 {
        lemma_current_from_system_line(lines, i - 1);
        lemma_generation_links_name_no_active(trimmed(lines[i - 1]));
    }
}

/// Without a `system` link line no generation is marked active.
proof fn lemma_generations_without_current(lines: Seq<Seq<char>>, i: int)
    ensures
        forall|k: int| 0 <= k < generations_upto(lines, None, i).len() ==> !(#[trigger] generations_upto(lines, None, i)[k]).is_current,
    decreases i,
{
    if i > 0 {
        lemma_generations_without_current(lines, i - 1);
        let prev = generations_upto(lines, None, i - 1);
        let cur = generations_upto(lines, None, i);
        assert forall|k: int| 0 <= k < cur.len() implies !(#[trigger] cur[k]).is_current by {
            if k < prev.len() {
                assert(cur[k] == prev[k]);
            }
        }
    }
}

/// What sorting newest first returns comes from its input.
proof fn lemma_newest_first_from(s: Seq<GenerationView>)
    ensures
        forall|k: int| 0 <= k < newest_first(s).len() ==> s.contains(#[trigger] newest_first(s)[k]),
    decreases s.len(),
{
    if s.len() > 0 {
        let prev = s.drop_last();
        lemma_newest_first_from(prev);
        lemma_newest_first_descending(prev);
        let sorted = newest_first(prev);
        let p = first_below(sorted, s.last().generation);
        lemma_first_below(sorted, s.last().generation);
        let r = newest_first(s);
        assert forall|k: int| 0 <= k < r.len() implies s.contains(#[trigger] r[k]) by {
            if k == p {
                assert(s[s.len() - 1] == r[k]);
            } else {
                let q = if k < p { k } else { k - 1 };
                assert(r[k] == sorted[q]);
                assert(prev.contains(sorted[q]));
                let m = choose|m: int| 0 <= m < prev.len() && prev[m] == sorted[q];
                assert(s[m] == prev[m]);
            }
        }
    }
}

/// A generation is marked active only when the `stat` output has a line of
/// the `system` link itself; the lines of the `system-<N>-link` entries
/// never make one active.
pub proof fn lemma_active_generation_needs_system_link(output: Seq<char>)
    ensures
        (forall|j: int|
            0 <= j < lines_of(output).len() ==> !has_prefix(#[trigger] trimmed(lines_of(output)[j]), "/nix/var/nix/profiles/system "@))
            ==> forall|k: int| 0 <= k < stat_generations(output).len() ==> !(#[trigger] stat_generations(output)[k]).is_current,
{
    let lines = lines_of(output);
    lemma_current_from_system_line(lines, lines.len() as int);
    if forall|j: int| 0 <= j < lines.len() ==> !has_prefix(#[trigger] trimmed(lines[j]), "/nix/var/nix/profiles/system "@) {
        assert(current_upto(lines, lines.len() as int) is None);
        let g = generations_upto(lines, None, lines.len() as int);
        lemma_generations_without_current(lines, lines.len() as int);
        lemma_newest_first_from(g);
        assert forall|k: int| 0 <= k < stat_generations(output).len() implies !(#[trigger] stat_generations(output)[k]).is_current by {
            let x = stat_generations(output)[k];
            assert(g.contains(x));
            let m = choose|m: int| 0 <= m < g.len() && g[m] == x;
            assert(!g[m].is_current);
        }
    }
}

} // verus!
