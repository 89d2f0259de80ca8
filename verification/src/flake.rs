//! Flake metadata and lockfile inspection: the input nodes of `flake.lock`,
//! the repository metadata `nix flake metadata --json` reports, and the
//! before/after difference of a `nix flake update`.

use vstd::prelude::*;
use crate::errors::{ErrorClass, NodError};
use crate::json::{at, get, parse_json, parsed_json, str_of, u64_of, JsonValue};
use crate::process::{CommandOutput, Invocation};
use crate::text::{clone_opt, cut_bytes, cut_ok, cut_to_bytes, joined, opt_view, seq_lt, str_lt, trim, trimmed, views};

verus! {

/// An input node declared or locked within a flake.
#[derive(Debug, Clone, PartialEq, Eq)]
pub struct FlakeInputNode {
    /// Input key in `flake.lock` (e.g. `nixpkgs`).
    pub name: String,
    /// Original flake reference (e.g. `github:NixOS/nixpkgs/nixpkgs-unstable`).
    pub original_url: String,
    /// Locked git revision, if available.
    pub locked_rev: Option<String>,
    /// Locked ref/branch, if applicable.
    pub locked_ref: Option<String>,
    /// Epoch timestamp of last modification.
    pub last_modified: Option<u64>,
    /// NAR hash of the locked source tree.
    pub nar_hash: Option<String>,
    /// Follows / redirected inputs, as `(input, target)`.
    pub follows: Vec<(String, String)>,
    /// True if the root flake references this node directly.
    pub is_direct: bool,
}

/// Mathematical form of a [`FlakeInputNode`].
pub struct InputNodeView {
    pub name: Seq<char>,
    pub original_url: Seq<char>,
    pub locked_rev: Option<Seq<char>>,
    pub locked_ref: Option<Seq<char>>,
    pub last_modified: Option<u64>,
    pub nar_hash: Option<Seq<char>>,
    pub follows: Seq<(Seq<char>, Seq<char>)>,
    pub is_direct: bool,
}

/// The text of a list of string pairs.
pub open spec fn pair_views(v: Seq<(String, String)>) -> Seq<(Seq<char>, Seq<char>)> {
    v.map_values(|p: (String, String)| (p.0@, p.1@))
}

impl View for FlakeInputNode {
    type V = InputNodeView;

    open spec fn view(&self) -> InputNodeView {
        InputNodeView {
            name: self.name@,
            original_url: self.original_url@,
            locked_rev: opt_view(self.locked_rev),
            locked_ref: opt_view(self.locked_ref),
            last_modified: self.last_modified,
            nar_hash: opt_view(self.nar_hash),
            follows: pair_views(self.follows@),
            is_direct: self.is_direct,
        }
    }
}

/// The views of a list of input nodes.
pub open spec fn node_views(v: Seq<FlakeInputNode>) -> Seq<InputNodeView> {
    v.map_values(|n: FlakeInputNode| n@)
}

/// High-level flake metadata and repository status.
#[derive(Debug, Clone, PartialEq, Eq)]
pub struct FlakeMetadata {
    /// Path to the flake source directory.
    pub path: String,
    /// Resolved canonical URL of the flake.
    pub url: Option<String>,
    /// Current git commit of the root flake repository.
    pub revision: Option<String>,
    /// Total commit count of the repository.
    pub rev_count: Option<u64>,
    /// Epoch timestamp of the last commit or edit.
    pub last_modified: Option<u64>,
    /// Format version of `flake.lock` (typically 7).
    pub lock_version: u32,
    /// Total number of input nodes in `flake.lock`.
    pub total_inputs: usize,
    /// Number of inputs the root references directly.
    pub direct_inputs: usize,
}

/// Recorded before-and-after difference for one flake input.
#[derive(Debug, Clone, PartialEq, Eq)]
pub struct InputDelta {
    pub name: String,
    pub old_rev: Option<String>,
    pub new_rev: Option<String>,
    pub old_last_modified: Option<u64>,
    pub new_last_modified: Option<u64>,
}

/// Aggregate report of a `nix flake update` run.
#[derive(Debug, Clone, PartialEq, Eq)]
pub struct FlakeUpdateReport {
    /// The inputs that changed.
    pub deltas: Vec<InputDelta>,
    /// Number of updated inputs.
    pub updated_count: usize,
    /// True if no input changed.
    pub unchanged: bool,
}

/// The 7-byte display form of a revision: `&r[..7]`, or all of `r` when it
/// is shorter.
pub open spec fn short_text(r: Seq<char>) -> Seq<char> {
    cut_bytes(r, 7)
}

/// A revision whose 7-byte display form falls on a character boundary.
pub open spec fn short_ok(o: Option<String>) -> bool {
    o matches Some(r) ==> cut_ok(r@, 7)
}

/// The short form of an optional revision.
fn short_of(o: &Option<String>) -> (r: Option<&str>)
    requires
        short_ok(*o),
    ensures
        r is None <==> o is None,
        r matches Some(s) ==> (*o matches Some(x) && s@ == short_text(x@)),
{
    match o {
        Some(x) => Some(cut_to_bytes(x.as_str(), 7)),
        None => None,
    }
}

impl FlakeInputNode {
    /// Short 7-character revision hash for display.
    pub fn short_rev(&self) -> (r: Option<&str>)
        requires
            short_ok(self.locked_rev),
        ensures
            r is None <==> self.locked_rev is None,
            r matches Some(s) ==> (self.locked_rev matches Some(x) && s@ == short_text(x@)),
    {
        short_of(&self.locked_rev)
    }
}

impl FlakeMetadata {
    /// Short 7-character revision hash of the flake repository.
    pub fn short_rev(&self) -> (r: Option<&str>)
        requires
            short_ok(self.revision),
        ensures
            r is None <==> self.revision is None,
            r matches Some(s) ==> (self.revision matches Some(x) && s@ == short_text(x@)),
    {
        short_of(&self.revision)
    }
}

/// Equality of two optional strings.
fn opt_str_eq(a: &Option<String>, b: &Option<String>) -> (r: bool)
    ensures
        r == (opt_view(*a) == opt_view(*b)),
{
    match (a, b) {
        (Some(x), Some(y)) => crate::text::str_eq(x.as_str(), y.as_str()),
        (None, None) => true,
        _ => false,
    }
}

impl InputDelta {
    /// The revision or the timestamp changed.
    pub open spec fn changed(self) -> bool {
        opt_view(self.old_rev) != opt_view(self.new_rev) || self.old_last_modified != self.new_last_modified
    }

    /// True if revision or timestamp changed.
    pub fn is_changed(&self) -> (r: bool)
        ensures
            r == self.changed(),
    {
        !opt_str_eq(&self.old_rev, &self.new_rev) || self.old_last_modified != self.new_last_modified
    }

    /// Short 7-character old revision.
    pub fn short_old_rev(&self) -> (r: Option<&str>)
        requires
            short_ok(self.old_rev),
        ensures
            r is None <==> self.old_rev is None,
            r matches Some(s) ==> (self.old_rev matches Some(x) && s@ == short_text(x@)),
    {
        short_of(&self.old_rev)
    }

    /// Short 7-character new revision.
    pub fn short_new_rev(&self) -> (r: Option<&str>)
        requires
            short_ok(self.new_rev),
        ensures
            r is None <==> self.new_rev is None,
            r matches Some(s) ==> (self.new_rev matches Some(x) && s@ == short_text(x@)),
    {
        short_of(&self.new_rev)
    }

    /// A copy of this delta.
    pub fn duplicate(&self) -> (r: InputDelta)
        ensures
            r == *self,
    {
        InputDelta {
            name: self.name.clone(),
            old_rev: clone_opt(&self.old_rev),
            new_rev: clone_opt(&self.new_rev),
            old_last_modified: self.old_last_modified,
            new_last_modified: self.new_last_modified,
        }
    }
}

/// The deltas of `s` that record a change, in order.
pub open spec fn changed_only(s: Seq<InputDelta>) -> Seq<InputDelta>
    decreases s.len(),
{
    if s.len() == 0 {
        Seq::empty()
    } else if s.last().changed() {
        changed_only(s.drop_last()).push(s.last())
    } else {
        changed_only(s.drop_last())
    }
}

impl FlakeUpdateReport {
    /// Creates a report from calculated deltas, keeping those that changed.
    pub fn from_deltas(deltas: Vec<InputDelta>) -> (r: FlakeUpdateReport)
        ensures
            r.deltas@ == changed_only(deltas@),
            r.updated_count == r.deltas@.len(),
            r.unchanged == (r.deltas@.len() == 0),
    {
        let mut changed: Vec<InputDelta> = Vec::new();
        let mut i: usize = 0;
        while i < deltas.len()
            invariant
                i <= deltas@.len(),
                changed@ == changed_only(deltas@.take(i as int)),
            decreases deltas@.len() - i,
        {
            proof {
                assert(deltas@.take(i as int + 1).drop_last() =~= deltas@.take(i as int));
            }
            if deltas[i].is_changed() {
                changed.push(deltas[i].duplicate());
            }
            i += 1;
        }
        proof {
            assert(deltas@.take(deltas@.len() as int) =~= deltas@);
        }
        let updated_count = changed.len();
        FlakeUpdateReport { deltas: changed, updated_count, unchanged: updated_count == 0 }
    }
}

/// `o`, or `d` when absent.
pub open spec fn text_or(o: Option<Seq<char>>, d: Seq<char>) -> Seq<char> {
    match o {
        Some(s) => s,
        None => d,
    }
}

/// `a`, or `b` when `a` is absent.
pub open spec fn either(a: Option<Seq<char>>, b: Option<Seq<char>>) -> Option<Seq<char>> {
    match a {
        Some(_) => a,
        None => b,
    }
}

/// The human-readable reference an input's `original` descriptor denotes:
/// `type:owner/repo[/ref-or-rev]` for forge inputs, the URL (or
/// `path:<path>`) for git, path and tarball inputs, else the URL or the type.
pub open spec fn descriptor(original: JsonValue) -> Seq<char> {
    let ty = text_or(str_of(at(original, "type"@)), "unknown"@);
    let url = str_of(at(original, "url"@));
    if ty == "github"@ || ty == "gitlab"@ || ty == "sourcehut"@ {
        let head = ty + ":"@ + text_or(str_of(at(original, "owner"@)), ""@) + "/"@ + text_or(
            str_of(at(original, "repo"@)),
            ""@,
        );
        match either(str_of(at(original, "ref"@)), str_of(at(original, "rev"@))) {
            Some(r) => head + "/"@ + r,
            None => head,
        }
    } else if ty == "git"@ || ty == "path"@ || ty == "tarball"@ {
        match url {
            Some(u) => u,
            None => match str_of(at(original, "path"@)) {
                Some(p) => "path:"@ + p,
                None => ty,
            },
        }
    } else {
        text_or(url, ty)
    }
}

/// The strings among `items`, in order.
pub open spec fn array_strings(items: Seq<JsonValue>) -> Seq<Seq<char>>
    decreases items.len(),
{
    if items.len() == 0 {
        Seq::empty()
    } else {
        let prev = array_strings(items.drop_last());
        match str_of(items.last()) {
            Some(s) => prev.push(s),
            None => prev,
        }
    }
}

/// The target a `follows` entry names: the path of a list joined with `/`,
/// a string itself, else nothing.
pub open spec fn follow_target(v: JsonValue) -> Seq<char> {
    match v {
        JsonValue::Array(items) => joined(array_strings(items@), "/"@),
        JsonValue::Str(s) => s@,
        _ => Seq::empty(),
    }
}

/// The `(input, target)` pairs of the first `i` entries with a non-empty target.
pub open spec fn follows_upto(entries: Seq<(String, JsonValue)>, i: int) -> Seq<(Seq<char>, Seq<char>)>
    decreases i,
{
    if i <= 0 {
        Seq::empty()
    } else {
        let prev = follows_upto(entries, i - 1);
        let t = follow_target(entries[i - 1].1);
        if t.len() > 0 {
            prev.push((entries[i - 1].0@, t))
        } else {
            prev
        }
    }
}

/// The follows pairs of a node's `inputs` object.
pub open spec fn follows_of(inputs: JsonValue) -> Seq<(Seq<char>, Seq<char>)> {
    match inputs {
        JsonValue::Object(entries) => follows_upto(entries@, entries@.len() as int),
        _ => Seq::empty(),
    }
}

/// The input node a lock-file entry named `name` describes.
pub open spec fn node_from_json(name: Seq<char>, node: JsonValue, direct: bool) -> InputNodeView {
    let locked = at(node, "locked"@);
    let original = at(node, "original"@);
    InputNodeView {
        name,
        original_url: descriptor(original),
        locked_rev: str_of(at(locked, "rev"@)),
        locked_ref: either(str_of(at(original, "ref"@)), str_of(at(locked, "ref"@))),
        last_modified: u64_of(at(locked, "lastModified"@)),
        nar_hash: str_of(at(locked, "narHash"@)),
        follows: follows_of(at(node, "inputs"@)),
        is_direct: direct,
    }
}

/// The entries of the root node's `inputs` object, or none.
pub open spec fn direct_entries(nodes: JsonValue) -> Seq<(String, JsonValue)> {
    match get(nodes, "root"@) {
        Some(r) => match at(r, "inputs"@) {
            JsonValue::Object(e) => e@,
            _ => Seq::empty(),
        },
        None => Seq::empty(),
    }
}

/// Some entry of `direct` is named `name`.
pub open spec fn is_direct_name(direct: Seq<(String, JsonValue)>, name: Seq<char>) -> bool {
    exists|j: int| 0 <= j < direct.len() && #[trigger] direct[j].0@ == name
}

/// The input nodes of the first `i` lock entries, skipping the root.
pub open spec fn raw_nodes(entries: Seq<(String, JsonValue)>, direct: Seq<(String, JsonValue)>, i: int) -> Seq<InputNodeView>
    decreases i,
{
    if i <= 0 {
        Seq::empty()
    } else {
        let prev = raw_nodes(entries, direct, i - 1);
        let name = entries[i - 1].0@;
        if name == "root"@ {
            prev
        } else {
            prev.push(node_from_json(name, entries[i - 1].1, is_direct_name(direct, name)))
        }
    }
}

/// Input order: direct inputs first, then by name.
pub open spec fn node_before(a: InputNodeView, b: InputNodeView) -> bool {
    (a.is_direct && !b.is_direct) || (a.is_direct == b.is_direct && seq_lt(a.name, b.name))
}

/// `s` is in input order.
pub open spec fn nodes_sorted(s: Seq<InputNodeView>) -> bool {
    forall|i: int, j: int| 0 <= i < j < s.len() ==> !node_before(#[trigger] s[j], #[trigger] s[i])
}

/// `m` holds the repository metadata of the document `root`.
pub open spec fn metadata_of(m: FlakeMetadata, root: JsonValue) -> bool {
    let locks = at(root, "locks"@);
    let nodes = at(locks, "nodes"@);
    &&& m.path@ == text_or(str_of(at(root, "path"@)), ""@)
    &&& opt_view(m.url) == str_of(at(root, "url"@))
    &&& opt_view(m.revision) == str_of(at(root, "revision"@))
    &&& m.rev_count == u64_of(at(root, "revCount"@))
    &&& m.last_modified == u64_of(at(root, "lastModified"@))
    &&& m.lock_version == (match u64_of(at(locks, "version"@)) {
        Some(v) => v as u32,
        None => 7u32,
    })
    &&& nodes matches JsonValue::Object(entries) && m.total_inputs == (if entries@.len() == 0 {
        0
    } else {
        entries@.len() - 1
    })
    &&& m.direct_inputs == direct_entries(nodes).len()
}

/// What reading `root` as `nix flake metadata --json` output gives: the
/// metadata and the input nodes in input order, or the error for a document
/// without a `locks.nodes` object.
pub open spec fn metadata_result(r: Result<(FlakeMetadata, Vec<FlakeInputNode>), NodError>, root: JsonValue) -> bool {
    let nodes = at(at(root, "locks"@), "nodes"@);
    match r {
        Ok((m, inputs)) => {
            &&& nodes is Object
            &&& metadata_of(m, root)
            &&& nodes_sorted(node_views(inputs@))
            &&& nodes matches JsonValue::Object(entries) && node_views(inputs@).to_multiset() == raw_nodes(
                entries@,
                direct_entries(nodes),
                entries@.len() as int,
            ).to_multiset()
        },
        Err(e) => {
            &&& !(nodes is Object)
            &&& e.is(ErrorClass::Evaluation, "failed to parse Nix output: missing locks.nodes in flake metadata"@)
        },
    }
}

/// [`node_before`] is a strict order.
proof fn lemma_node_before(a: InputNodeView, b: InputNodeView, c: InputNodeView)
    ensures
        !node_before(a, a),
        node_before(a, b) && node_before(b, c) ==> node_before(a, c),
{
    crate::text::lemma_seq_lt_asym(a.name, b.name);
    if node_before(a, b) && node_before(b, c) && a.is_direct == b.is_direct && b.is_direct == c.is_direct {
        crate::text::lemma_seq_lt_trans(a.name, b.name, c.name);
    }
}

/// The value under `key`, or `None` for a missing key or a non-object.
fn field<'a>(v: &'a JsonValue, key: &str) -> (r: Option<&'a JsonValue>)
    ensures
        r matches Some(x) ==> at(*v, key@) == *x,
        r is None ==> at(*v, key@) == JsonValue::Null,
{
    v.get(key)
}

/// The string under `key` of an optional value (absent reads as `null`).
fn str_in<'a>(v: Option<&'a JsonValue>, key: &str) -> (r: Option<&'a str>)
    ensures
        r matches Some(s) ==> str_of(at(match v {
            Some(x) => *x,
            None => JsonValue::Null,
        }, key@)) == Some(s@),
        r is None ==> str_of(at(match v {
            Some(x) => *x,
            None => JsonValue::Null,
        }, key@)) is None,
{
    match v {
        Some(x) => x.str_at(key),
        None => None,
    }
}

/// An owned copy of an optional string slice.
fn owned(o: Option<&str>) -> (r: Option<String>)
    ensures
        opt_view(r) == match o {
            Some(s) => Some(s@),
            None => None::<Seq<char>>,
        },
{
    match o {
        Some(s) => Some(s.to_owned()),
        None => None,
    }
}

/// The `flake.lock` / `nix flake metadata` adapter driving the `nix` CLI.
#[derive(Debug, Clone, Copy, PartialEq, Eq)]
pub struct NixCliFlakeStore;

impl NixCliFlakeStore {
    /// Creates the adapter.
    pub fn new() -> (r: NixCliFlakeStore) {
        NixCliFlakeStore
    }

    /// Formats an input's `original` descriptor into a readable reference.
    fn format_original_descriptor(original: &JsonValue) -> (s: String)
        ensures
            s@ == descriptor(*original),
    {
        proof {
            reveal_strlit("type");
            reveal_strlit("unknown");
            reveal_strlit("url");
            reveal_strlit("github");
            reveal_strlit("gitlab");
            reveal_strlit("sourcehut");
            reveal_strlit("git");
            reveal_strlit("path");
            reveal_strlit("tarball");
        }
        let ty: &str = match original.str_at("type") {
            Some(t) => t,
            None => "unknown",
        };
        let url = original.str_at("url");
        if crate::text::str_eq(ty, "github") || crate::text::str_eq(ty, "gitlab") || crate::text::str_eq(ty, "sourcehut") {
            let mut out = ty.to_owned();
            out.append(":");
            match original.str_at("owner") {
                Some(o) => out.append(o),
                None => {},
            }
            out.append("/");
            match original.str_at("repo") {
                Some(r) => out.append(r),
                None => {},
            }
            let r = match original.str_at("ref") {
                Some(r) => Some(r),
                None => original.str_at("rev"),
            };
            match r {
                Some(r) => {
                    out.append("/");
                    out.append(r);
                },
                None => {},
            }
            proof {
                reveal_strlit(":");
                reveal_strlit("/");
                reveal_strlit("");
            }
            out
        } else if crate::text::str_eq(ty, "git") || crate::text::str_eq(ty, "path") || crate::text::str_eq(ty, "tarball") {
            match url {
                Some(u) => u.to_owned(),
                None => match original.str_at("path") {
                    Some(p) => {
                        let mut out = String::from_str("path:");
                        out.append(p);
                        out
                    },
                    None => ty.to_owned(),
                },
            }
        } else {
            match url {
                Some(u) => u.to_owned(),
                None => ty.to_owned(),
            }
        }
    }
}

/// The strings of a JSON array joined with `/`.
fn join_path(items: &Vec<JsonValue>) -> (r: String)
    ensures
        r@ == joined(array_strings(items@), "/"@),
{
    let mut parts: Vec<String> = Vec::new();
    let mut i: usize = 0;
    while i < items.len()
        invariant
            i <= items@.len(),
            views(parts@) == array_strings(items@.take(i as int)),
        decreases items@.len() - i,
    {
        proof {
            assert(items@.take(i as int + 1).drop_last() =~= items@.take(i as int));
        }
        match items[i].as_str() {
            Some(s) => {
                let ghost before = parts@;
                parts.push(s.to_owned());
                proof {
                    assert(views(parts@) =~= views(before).push(s@));
                }
            },
            None => {},
        }
        i += 1;
    }
    proof {
        assert(items@.take(items@.len() as int) =~= items@);
    }
    crate::text::join(&parts, "/")
}

/// The follows pairs of a node's `inputs` value.
fn follows_from(inputs: Option<&JsonValue>) -> (r: Vec<(String, String)>)
    ensures
        pair_views(r@) == follows_of(match inputs {
            Some(x) => *x,
            None => JsonValue::Null,
        }),
{
    let mut out: Vec<(String, String)> = Vec::new();
    match inputs {
        Some(JsonValue::Object(entries)) => {
            let mut i: usize = 0;
            while i < entries.len()
                invariant
                    i <= entries@.len(),
                    pair_views(out@) == follows_upto(entries@, i as int),
                decreases entries@.len() - i,
            {
                let target: String = match &entries[i].1 {
                    JsonValue::Array(items) => join_path(items),
                    JsonValue::Str(s) => s.clone(),
                    _ => String::new(),
                };
                proof {
                    assert(target@ == follow_target(entries@[i as int].1));
                }
                if target.unicode_len() > 0 {
                    let ghost before = out@;
                    out.push((entries[i].0.clone(), target));
                    proof {
                        assert(pair_views(out@) =~= pair_views(before).push((entries@[i as int].0@, follow_target(entries@[i as int].1))));
                    }
                }
                i += 1;
            }
        },
        _ => {
            proof {
                assert(pair_views(out@) =~= Seq::<(Seq<char>, Seq<char>)>::empty());
            }
        },
    }
    out
}

/// Exec form of [`node_before`].
fn before(a: &FlakeInputNode, b: &FlakeInputNode) -> (r: bool)
    ensures
        r == node_before(a@, b@),
{
    (a.is_direct && !b.is_direct) || (a.is_direct == b.is_direct && str_lt(a.name.as_str(), b.name.as_str()))
}

/// Inserts `x` into the input-ordered `sorted` after every node it does not
/// precede.
fn insert_in_order(sorted: &mut Vec<FlakeInputNode>, x: FlakeInputNode)
    requires
        nodes_sorted(node_views(old(sorted)@)),
    ensures
        nodes_sorted(node_views(final(sorted)@)),
        node_views(final(sorted)@).to_multiset() == node_views(old(sorted)@).to_multiset().insert(x@),
{
    let ghost s = node_views(sorted@);
    let mut p: usize = 0;
    while p < sorted.len() && !before(&x, &sorted[p])
        invariant
            p <= sorted@.len(),
            s == node_views(sorted@),
            forall|q: int| 0 <= q < p ==> !node_before(x@, #[trigger] s[q]),
        decreases sorted@.len() - p,
    {
        p += 1;
    }
    let ghost xv = x@;
    sorted.insert(p, x);
    proof {
        broadcast use vstd::seq_lib::group_to_multiset_ensures;
        let t = node_views(sorted@);
        assert(t =~= s.insert(p as int, xv));
        assert forall|i: int, j: int| 0 <= i < j < t.len() implies !node_before(#[trigger] t[j], #[trigger] t[i]) by {
            if j < p {
                assert(t[i] == s[i] && t[j] == s[j]);
            } else if j == p {
                assert(t[i] == s[i]);
            } else if i == p {
                assert(t[j] == s[j - 1]);
                lemma_node_before(s[j - 1], xv, s[p as int]);
                lemma_node_before(s[p as int], s[p as int], s[p as int]);
                if j - 1 > p {
                    assert(!node_before(s[j - 1], s[p as int]));
                }
            } else if i < p {
                assert(t[i] == s[i] && t[j] == s[j - 1]);
            } else {
                assert(t[i] == s[i - 1] && t[j] == s[j - 1]);
            }
        }
    }
}

impl NixCliFlakeStore {
    /// The input node of the lock entry `name` / `node`.
    fn node_from(name: &String, node: &JsonValue, direct: bool) -> (r: FlakeInputNode)
        ensures
            r@ == node_from_json(name@, *node, direct),
    {
        let locked = field(node, "locked");
        let original = field(node, "original");
        let original_url = match original {
            Some(o) => Self::format_original_descriptor(o),
            None => Self::format_original_descriptor(&JsonValue::Null),
        };
        let locked_rev = owned(str_in(locked, "rev"));
        let locked_ref = match str_in(original, "ref") {
            Some(r) => Some(r.to_owned()),
            None => owned(str_in(locked, "ref")),
        };
        let last_modified = match locked {
            Some(l) => l.u64_at("lastModified"),
            None => None,
        };
        proof {
            if locked is None {
                assert(at(JsonValue::Null, "lastModified"@) == JsonValue::Null);
            }
        }
        let nar_hash = owned(str_in(locked, "narHash"));
        let follows = follows_from(field(node, "inputs"));
        FlakeInputNode {
            name: name.clone(),
            original_url,
            locked_rev,
            locked_ref,
            last_modified,
            nar_hash,
            follows,
            is_direct: direct,
        }
    }

    /// The input nodes of the lock entries `entries`, root excluded, in
    /// input order; `direct` are the root's inputs.
    fn collect_inputs(entries: &Vec<(String, JsonValue)>, direct: &Vec<(String, JsonValue)>) -> (inputs: Vec<FlakeInputNode>)
        ensures
            nodes_sorted(node_views(inputs@)),
            node_views(inputs@).to_multiset() == raw_nodes(entries@, direct@, entries@.len() as int).to_multiset(),
    {
        proof {
            reveal_strlit("root");
        }
        let mut inputs: Vec<FlakeInputNode> = Vec::new();
        let mut i: usize = 0;
        proof {
            broadcast use vstd::seq_lib::group_to_multiset_ensures;
            assert(node_views(inputs@) =~= Seq::<InputNodeView>::empty());
        }
        while i < entries.len()
            invariant
                i <= entries@.len(),
                nodes_sorted(node_views(inputs@)),
                node_views(inputs@).to_multiset() == raw_nodes(entries@, direct@, i as int).to_multiset(),
            decreases entries@.len() - i,
        {
            let name = &entries[i].0;
            if !crate::text::str_eq(name.as_str(), "root") {
                let is_direct = match crate::json::find_key_in(direct, name.as_str()) {
                    Some(_) => true,
                    None => false,
                };
                let node = Self::node_from(name, &entries[i].1, is_direct);
                proof {
                    broadcast use vstd::seq_lib::group_to_multiset_ensures;
                    let prev = raw_nodes(entries@, direct@, i as int);
                    assert(raw_nodes(entries@, direct@, i as int + 1) == prev.push(node@));
                }
                insert_in_order(&mut inputs, node);
            }
            i += 1;
        }
        inputs
    }

    /// The repository metadata of `root`, given the number of lock entries
    /// and of direct inputs.
    fn metadata_fields(root: &JsonValue, entry_count: usize, direct_count: usize) -> (m: FlakeMetadata)
        ensures
            m.path@ == text_or(str_of(at(*root, "path"@)), ""@),
            opt_view(m.url) == str_of(at(*root, "url"@)),
            opt_view(m.revision) == str_of(at(*root, "revision"@)),
            m.rev_count == u64_of(at(*root, "revCount"@)),
            m.last_modified == u64_of(at(*root, "lastModified"@)),
            m.lock_version == (match u64_of(at(at(*root, "locks"@), "version"@)) {
                Some(v) => v as u32,
                None => 7u32,
            }),
            m.total_inputs == (if entry_count == 0 { 0 } else { entry_count - 1 }),
            m.direct_inputs == direct_count,
    {
        let lock_version: u32 = match field(root, "locks") {
            Some(l) => match l.u64_at("version") {
                Some(v) => v as u32,
                None => 7,
            },
            None => {
                proof {
                    assert(at(JsonValue::Null, "version"@) == JsonValue::Null);
                }
                7
            },
        };
        proof {
            reveal_strlit("");
        }
        FlakeMetadata {
            path: match root.str_at("path") {
                Some(p) => p.to_owned(),
                None => String::new(),
            },
            url: owned(root.str_at("url")),
            revision: owned(root.str_at("revision")),
            rev_count: root.u64_at("revCount"),
            last_modified: root.u64_at("lastModified"),
            lock_version,
            total_inputs: if entry_count == 0 { 0 } else { entry_count - 1 },
            direct_inputs: direct_count,
        }
    }

    /// Reads a parsed `nix flake metadata --json` document: the repository
    /// metadata and the lock's input nodes (the root excluded), direct
    /// inputs first and then by name.
    pub fn metadata_from_json(root: &JsonValue) -> (r: Result<(FlakeMetadata, Vec<FlakeInputNode>), NodError>)
        ensures
            metadata_result(r, *root),
    {
        let nodes_val = match field(root, "locks") {
            Some(l) => field(l, "nodes"),
            None => {
                proof {
                    assert(at(JsonValue::Null, "nodes"@) == JsonValue::Null);
                }
                None
            },
        };
        let ghost nodes = at(at(*root, "locks"@), "nodes"@);
        let entries = match nodes_val {
            Some(JsonValue::Object(entries)) => entries,
            _ => {
                proof {
                    reveal_strlit("failed to parse Nix output: missing locks.nodes in flake metadata");
                    reveal_strlit("failed to parse Nix output: ");
                    reveal_strlit("missing locks.nodes in flake metadata");
                    assert("failed to parse Nix output: "@ + "missing locks.nodes in flake metadata"@
                        =~= "failed to parse Nix output: missing locks.nodes in flake metadata"@);
                }
                return Err(NodError::parse_failure("missing locks.nodes in flake metadata"));
            },
        };
        let empty: Vec<(String, JsonValue)> = Vec::new();
        let direct: &Vec<(String, JsonValue)> = match nodes_val {
            Some(n) => match n.get("root") {
                Some(r) => match field(r, "inputs") {
                    Some(JsonValue::Object(d)) => d,
                    _ => &empty,
                },
                None => &empty,
            },
            None => &empty,
        };
        assert(direct@ == direct_entries(nodes));
        let inputs = Self::collect_inputs(entries, direct);
        let metadata = Self::metadata_fields(root, entries.len(), direct.len());
        Ok((metadata, inputs))
    }

    /// Parses the JSON output of `nix flake metadata --json` into the
    /// repository metadata and the lock's input nodes.
    pub fn parse_metadata_json(raw_json: &str) -> (r: Result<(FlakeMetadata, Vec<FlakeInputNode>), NodError>)
        ensures
            match parsed_json(raw_json@) {
                Ok(root) => metadata_result(r, root),
                Err(msg) => r matches Err(e) && e.is(
                    ErrorClass::Evaluation,
                    "failed to parse Nix output: nix flake metadata JSON: "@ + msg,
                ),
            },
    {
        match parse_json(raw_json) {
            Ok(root) => Self::metadata_from_json(&root),
            Err(msg) => {
                let mut detail = String::from_str("nix flake metadata JSON: ");
                detail.append(msg.as_str());
                let e = NodError::parse_failure(detail.as_str());
                proof {
                    reveal_strlit("nix flake metadata JSON: ");
                    reveal_strlit("failed to parse Nix output: ");
                    reveal_strlit("failed to parse Nix output: nix flake metadata JSON: ");
                    assert("failed to parse Nix output: "@ + ("nix flake metadata JSON: "@ + msg@)
                        =~= "failed to parse Nix output: nix flake metadata JSON: "@ + msg@);
                }
                Err(e)
            },
        }
    }
}

/// The position of the last node of `nodes` named `name`, or `-1`.
pub open spec fn last_named(nodes: Seq<FlakeInputNode>, name: Seq<char>) -> int
    decreases nodes.len(),
{
    if nodes.len() == 0 {
        -1
    } else if nodes.last().name@ == name {
        nodes.len() - 1
    } else {
        last_named(nodes.drop_last(), name)
    }
}

/// Mathematical form of an [`InputDelta`].
pub struct DeltaView {
    pub name: Seq<char>,
    pub old_rev: Option<Seq<char>>,
    pub new_rev: Option<Seq<char>>,
    pub old_last_modified: Option<u64>,
    pub new_last_modified: Option<u64>,
}

impl View for InputDelta {
    type V = DeltaView;

    open spec fn view(&self) -> DeltaView {
        DeltaView {
            name: self.name@,
            old_rev: opt_view(self.old_rev),
            new_rev: opt_view(self.new_rev),
            old_last_modified: self.old_last_modified,
            new_last_modified: self.new_last_modified,
        }
    }
}

/// The views of a list of deltas.
pub open spec fn delta_views(v: Seq<InputDelta>) -> Seq<DeltaView> {
    v.map_values(|d: InputDelta| d@)
}

/// The delta of `new` against the last node of `old` of the same name.
pub open spec fn delta_against(old: Seq<FlakeInputNode>, new: FlakeInputNode) -> DeltaView {
    let k = last_named(old, new.name@);
    DeltaView {
        name: new.name@,
        old_rev: if k >= 0 { opt_view(old[k].locked_rev) } else { None },
        new_rev: opt_view(new.locked_rev),
        old_last_modified: if k >= 0 { old[k].last_modified } else { None },
        new_last_modified: new.last_modified,
    }
}

/// The revision or the timestamp changed.
pub open spec fn view_changed(d: DeltaView) -> bool {
    d.old_rev != d.new_rev || d.old_last_modified != d.new_last_modified
}

/// The changed deltas of the first `i` nodes of `new` against `old`.
pub open spec fn deltas_upto(old: Seq<FlakeInputNode>, new: Seq<FlakeInputNode>, i: int) -> Seq<DeltaView>
    decreases i,
{
    if i <= 0 {
        Seq::empty()
    } else {
        let prev = deltas_upto(old, new, i - 1);
        let d = delta_against(old, new[i - 1]);
        if view_changed(d) {
            prev.push(d)
        } else {
            prev
        }
    }
}

/// The last node of `old` named `name`.
fn find_last_named(old: &Vec<FlakeInputNode>, name: &String) -> (r: Option<usize>)
    ensures
        r matches Some(k) ==> k < old@.len() && k as int == last_named(old@, name@),
        r is None ==> last_named(old@, name@) == -1,
{
    let mut i: usize = old.len();
    proof {
        assert(old@.take(old@.len() as int) =~= old@);
    }
    while i > 0
        invariant
            i <= old@.len(),
            last_named(old@, name@) == last_named(old@.take(i as int), name@),
        decreases i,
    {
        proof {
            assert(old@.take(i as int).drop_last() =~= old@.take(i as int - 1));
        }
        if crate::text::str_eq(old[i - 1].name.as_str(), name.as_str()) {
            return Some(i - 1);
        }
        i -= 1;
    }
    None
}

impl NixCliFlakeStore {
    /// `nix flake metadata --json <flake>`.
    pub fn metadata_invocation(flake_path: &str) -> (inv: Invocation)
        ensures
            inv.program@ == "nix"@,
            views(inv.args@) == seq!["flake"@, "metadata"@, "--json"@, flake_path@],
            inv.env@.len() == 0,
    {
        let mut args: Vec<String> = Vec::new();
        args.push(String::from_str("flake"));
        args.push(String::from_str("metadata"));
        args.push(String::from_str("--json"));
        args.push(flake_path.to_owned());
        proof {
            assert(views(args@) =~= seq!["flake"@, "metadata"@, "--json"@, flake_path@]);
        }
        Invocation::new("nix", args)
    }

    /// Reads the outcome of `nix flake metadata --json`: a failure to start
    /// and a failed run are evaluation errors; a successful run's output is
    /// parsed as by [`parse_metadata_json`](Self::parse_metadata_json).
    pub fn read_metadata(outcome: &Result<CommandOutput, crate::process::SpawnError>) -> (r: Result<(FlakeMetadata, Vec<FlakeInputNode>), NodError>)
        ensures
            match outcome {
                Err(e) => r matches Err(x) && x.is(
                    ErrorClass::Evaluation,
                    "failed to run `nix flake metadata`: "@ + e.message@,
                ),
                Ok(out) => if !out.success {
                    r matches Err(x) && x.is(ErrorClass::Evaluation, "nix flake metadata failed: "@ + trimmed(out.stderr@))
                } else {
                    match parsed_json(out.stdout@) {
                        Ok(root) => metadata_result(r, root),
                        Err(msg) => r matches Err(x) && x.is(
                            ErrorClass::Evaluation,
                            "failed to parse Nix output: nix flake metadata JSON: "@ + msg,
                        ),
                    }
                },
            },
    {
        match outcome {
            Err(e) => {
                let mut d = String::from_str("failed to run `nix flake metadata`: ");
                d.append(e.message.as_str());
                Err(NodError::of_class(ErrorClass::Evaluation, d))
            },
            Ok(out) => {
                if !out.success {
                    let mut d = String::from_str("nix flake metadata failed: ");
                    d.append(trim(out.stderr.as_str()));
                    Err(NodError::of_class(ErrorClass::Evaluation, d))
                } else {
                    Self::parse_metadata_json(out.stdout.as_str())
                }
            },
        }
    }

    /// `nix flake update [inputs...] --flake <flake>`.
    pub fn update_invocation(flake_path: &str, inputs: &Vec<String>) -> (inv: Invocation)
        ensures
            inv.program@ == "nix"@,
            views(inv.args@) == seq!["flake"@, "update"@] + views(inputs@) + seq!["--flake"@, flake_path@],
            inv.env@.len() == 0,
    {
        let mut args: Vec<String> = Vec::new();
        args.push(String::from_str("flake"));
        args.push(String::from_str("update"));
        let mut i: usize = 0;
        while i < inputs.len()
            invariant
                i <= inputs@.len(),
                views(args@) == seq!["flake"@, "update"@] + views(inputs@).take(i as int),
            decreases inputs@.len() - i,
        {
            let ghost before = args@;
            args.push(inputs[i].clone());
            proof {
                assert(views(args@) =~= views(before).push(inputs@[i as int]@));
                assert(views(inputs@).take(i as int + 1) =~= views(inputs@).take(i as int).push(inputs@[i as int]@));
            }
            i += 1;
        }
        let ghost mid = args@;
        args.push(String::from_str("--flake"));
        args.push(flake_path.to_owned());
        proof {
            assert(views(inputs@).take(inputs@.len() as int) =~= views(inputs@));
            assert(views(args@) =~= views(mid) + seq!["--flake"@, flake_path@]);
        }
        Invocation::new("nix", args)
    }

    /// Reads the outcome of `nix flake update`.
    pub fn read_update(outcome: &Result<CommandOutput, crate::process::SpawnError>) -> (r: Result<(), NodError>)
        ensures
            match outcome {
                Err(e) => r matches Err(x) && x.is(
                    ErrorClass::Evaluation,
                    "failed to run `nix flake update`: "@ + e.message@,
                ),
                Ok(out) => if !out.success {
                    r matches Err(x) && x.is(ErrorClass::Evaluation, "nix flake update failed: "@ + trimmed(out.stderr@))
                } else {
                    r is Ok
                },
            },
    {
        match outcome {
            Err(e) => {
                let mut d = String::from_str("failed to run `nix flake update`: ");
                d.append(e.message.as_str());
                Err(NodError::of_class(ErrorClass::Evaluation, d))
            },
            Ok(out) => {
                if !out.success {
                    let mut d = String::from_str("nix flake update failed: ");
                    d.append(trim(out.stderr.as_str()));
                    Err(NodError::of_class(ErrorClass::Evaluation, d))
                } else {
                    Ok(())
                }
            },
        }
    }

    /// The changed inputs between the `old` and `new` snapshots: for each
    /// node of `new`, in order, its delta against the last `old` node of the
    /// same name, kept when the revision or the timestamp changed.
    pub fn input_deltas(old: &Vec<FlakeInputNode>, new: &Vec<FlakeInputNode>) -> (deltas: Vec<InputDelta>)
        ensures
            delta_views(deltas@) == deltas_upto(old@, new@, new@.len() as int),
    {
        let mut deltas: Vec<InputDelta> = Vec::new();
        let mut i: usize = 0;
        while i < new.len()
            invariant
                i <= new@.len(),
                delta_views(deltas@) == deltas_upto(old@, new@, i as int),
            decreases new@.len() - i,
        {
            let node = &new[i];
            let k = find_last_named(old, &node.name);
            let delta = InputDelta {
                name: node.name.clone(),
                old_rev: match k {
                    Some(k) => clone_opt(&old[k].locked_rev),
                    None => None,
                },
                new_rev: clone_opt(&node.locked_rev),
                old_last_modified: match k {
                    Some(k) => old[k].last_modified,
                    None => None,
                },
                new_last_modified: node.last_modified,
            };
            proof {
                assert(delta@ == delta_against(old@, new@[i as int]));
            }
            if delta.is_changed() {
                let ghost before = deltas@;
                deltas.push(delta);
                proof {
                    assert(delta_views(deltas@) =~= delta_views(before).push(delta@));
                }
            }
            i += 1;
        }
        deltas
    }

    /// The update report of the `old` and `new` snapshots.
    pub fn update_report(old: &Vec<FlakeInputNode>, new: &Vec<FlakeInputNode>) -> (r: FlakeUpdateReport)
        ensures
            delta_views(r.deltas@) == deltas_upto(old@, new@, new@.len() as int),
            r.updated_count == r.deltas@.len(),
            r.unchanged == (r.deltas@.len() == 0),
    {
        let deltas = Self::input_deltas(old, new);
        let r = FlakeUpdateReport::from_deltas(deltas);
        proof {
            lemma_deltas_upto_changed(old@, new@, new@.len() as int);
            assert forall|i: int| 0 <= i < deltas@.len() implies view_changed(#[trigger] deltas@[i]@) by {
                assert(delta_views(deltas@)[i] == deltas@[i]@);
            }
            lemma_changed_only_all(deltas@);
        }
        r
    }
}

/// Every delta [`deltas_upto`] keeps records a change.
proof fn lemma_deltas_upto_changed(old: Seq<FlakeInputNode>, new: Seq<FlakeInputNode>, i: int)
    ensures
        forall|x: int| 0 <= x < deltas_upto(old, new, i).len() ==> view_changed(#[trigger] deltas_upto(old, new, i)[x]),
    decreases i,
{
    if i > 0 {
        lemma_deltas_upto_changed(old, new, i - 1);
        let prev = deltas_upto(old, new, i - 1);
        let cur = deltas_upto(old, new, i);
        assert forall|x: int| 0 <= x < cur.len() implies view_changed(#[trigger] cur[x]) by {
            if x < prev.len() {
                assert(cur[x] == prev[x]);
            }
        }
    }
}

/// Keeping the changed deltas of a list whose deltas all changed keeps it.
proof fn lemma_changed_only_all(s: Seq<InputDelta>)
    requires
        forall|i: int| 0 <= i < s.len() ==> view_changed(#[trigger] s[i]@),
    ensures
        changed_only(s) == s,
    decreases s.len(),
{
    if s.len() > 0 {
        lemma_changed_only_all(s.drop_last());
        assert(view_changed(s.last()@));
        assert(s.drop_last().push(s.last()) =~= s);
    }
}

/// The input `node` of the new lock carries the revision and the
/// lastModified timestamp of its namesake in the `old` lock (both absent
/// when the old lock has no such input).
pub open spec fn same_lock(old: Seq<FlakeInputNode>, node: FlakeInputNode) -> bool {
    let k = last_named(old, node.name@);
    if k >= 0 {
        opt_view(old[k].locked_rev) == opt_view(node.locked_rev) && old[k].last_modified == node.last_modified
    } else {
        node.locked_rev is None && node.last_modified is None
    }
}

/// A delta counts as changed when its revisions differ, and also when only
/// its lastModified timestamps differ; a delta with equal revisions and
/// equal timestamps is unchanged.
pub proof fn lemma_delta_change(d: InputDelta)
    ensures
        opt_view(d.old_rev) != opt_view(d.new_rev) ==> d.changed() && view_changed(d@),
        d.old_last_modified != d.new_last_modified ==> d.changed() && view_changed(d@),
        opt_view(d.old_rev) == opt_view(d.new_rev) && d.old_last_modified == d.new_last_modified ==> !d.changed()
            && !view_changed(d@),
{
}

/// An update reports no change exactly when every input of the new lock
/// kept the revision and the timestamp of its namesake; every input that
/// moved in either (a tarball input whose timestamp alone moved among them)
/// is listed with its delta.
pub proof fn lemma_update_report_changes(old: Seq<FlakeInputNode>, new: Seq<FlakeInputNode>, i: int)
    requires
        0 <= i <= new.len(),
    ensures
        deltas_upto(old, new, i).len() == 0 <==> forall|j: int| 0 <= j < i ==> #[trigger] same_lock(old, new[j]),
        forall|j: int|
            0 <= j < i && !#[trigger] same_lock(old, new[j]) ==> deltas_upto(old, new, i).contains(
                delta_against(old, new[j]),
            ),
    decreases i,
{
    if i > 0 {
        lemma_update_report_changes(old, new, i - 1);
        let prev = deltas_upto(old, new, i - 1);
        let d = delta_against(old, new[i - 1]);
        assert(view_changed(d) <==> !same_lock(old, new[i - 1]));
        if view_changed(d) {
            assert(deltas_upto(old, new, i) == prev.push(d));
            assert(deltas_upto(old, new, i)[prev.len() as int] == d);
            assert forall|j: int|
                0 <= j < i && !#[trigger] same_lock(old, new[j]) implies deltas_upto(old, new, i).contains(
                    delta_against(old, new[j]),
                ) by {
                if j < i - 1 {
                    let p = choose|p: int| 0 <= p < prev.len() && prev[p] == delta_against(old, new[j]);
                    assert(deltas_upto(old, new, i)[p] == prev[p]);
                }
            }
        }
    }
}

} // verus!
