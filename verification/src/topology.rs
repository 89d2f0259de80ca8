//! Fleet topology: the node list and its renderings as a Mermaid diagram,
//! a Graphviz graph, an Ansible inventory and Prometheus target groups.
//!
//! Where a rendering groups or orders names it does so by `str`'s order,
//! each name once, as an ordered map or set keyed by name would.

use vstd::prelude::*;
use crate::provision::ascii_lowercase;
use crate::text::{ascii_lower_seq, lemma_seq_lt_asym, lemma_seq_lt_total, lemma_seq_lt_trans};
use crate::text::{contains_str, has_infix, join, joined, opt_view, seq_lt, str_eq, str_lt, views};

verus! {

/// Output graph visualization format.
#[derive(Debug, Clone, Copy, PartialEq, Eq, Structural)]
pub enum GraphFormat {
    Dot,
    Mermaid,
    Json,
}

/// Output inventory export format.
#[derive(Debug, Clone, Copy, PartialEq, Eq, Structural)]
pub enum ExportFormat {
    Ansible,
    Prometheus,
    Json,
}

/// The graph format an ASCII-lower-cased name denotes, or the error text.
pub open spec fn graph_format_named(lowered: Seq<char>) -> Result<GraphFormat, Seq<char>> {
    if lowered == "dot"@ {
        Ok(GraphFormat::Dot)
    } else if lowered == "mermaid"@ {
        Ok(GraphFormat::Mermaid)
    } else if lowered == "json"@ {
        Ok(GraphFormat::Json)
    } else {
        Err("unknown graph format: '"@ + lowered + "' (expected: dot, mermaid, json)"@)
    }
}

/// The export format an ASCII-lower-cased name denotes, or the error text.
pub open spec fn export_format_named(lowered: Seq<char>) -> Result<ExportFormat, Seq<char>> {
    if lowered == "ansible"@ || lowered == "yaml"@ {
        Ok(ExportFormat::Ansible)
    } else if lowered == "prometheus"@ || lowered == "prom"@ {
        Ok(ExportFormat::Prometheus)
    } else if lowered == "json"@ {
        Ok(ExportFormat::Json)
    } else {
        Err("unknown export format: '"@ + lowered + "' (expected: ansible, prometheus, json)"@)
    }
}

impl GraphFormat {
    /// Parses a format name, ignoring ASCII case.
    pub fn parse(s: &str) -> (r: Result<GraphFormat, String>)
        ensures
            match graph_format_named(ascii_lower_seq(s@)) {
                Ok(f) => r == Ok::<GraphFormat, String>(f),
                Err(m) => r matches Err(x) && x@ == m,
            },
    {
        let lowered = ascii_lowercase(s);
        if str_eq(lowered.as_str(), "dot") {
            Ok(GraphFormat::Dot)
        } else if str_eq(lowered.as_str(), "mermaid") {
            Ok(GraphFormat::Mermaid)
        } else if str_eq(lowered.as_str(), "json") {
            Ok(GraphFormat::Json)
        } else {
            let mut m = String::from_str("unknown graph format: '");
            m.append(lowered.as_str());
            m.append("' (expected: dot, mermaid, json)");
            Err(m)
        }
    }
}

impl std::str::FromStr for GraphFormat {
    type Err = String;

    fn from_str(s: &str) -> (r: Result<GraphFormat, String>)
        ensures
            match graph_format_named(ascii_lower_seq(s@)) {
                Ok(f) => r == Ok::<GraphFormat, String>(f),
                Err(m) => r matches Err(x) && x@ == m,
            },
    {
        GraphFormat::parse(s)
    }
}

impl ExportFormat {
    /// Parses a format name (or its alias), ignoring ASCII case.
    pub fn parse(s: &str) -> (r: Result<ExportFormat, String>)
        ensures
            match export_format_named(ascii_lower_seq(s@)) {
                Ok(f) => r == Ok::<ExportFormat, String>(f),
                Err(m) => r matches Err(x) && x@ == m,
            },
    {
        let lowered = ascii_lowercase(s);
        if str_eq(lowered.as_str(), "ansible") || str_eq(lowered.as_str(), "yaml") {
            Ok(ExportFormat::Ansible)
        } else if str_eq(lowered.as_str(), "prometheus") || str_eq(lowered.as_str(), "prom") {
            Ok(ExportFormat::Prometheus)
        } else if str_eq(lowered.as_str(), "json") {
            Ok(ExportFormat::Json)
        } else {
            let mut m = String::from_str("unknown export format: '");
            m.append(lowered.as_str());
            m.append("' (expected: ansible, prometheus, json)");
            Err(m)
        }
    }
}

impl std::str::FromStr for ExportFormat {
    type Err = String;

    fn from_str(s: &str) -> (r: Result<ExportFormat, String>)
        ensures
            match export_format_named(ascii_lower_seq(s@)) {
                Ok(f) => r == Ok::<ExportFormat, String>(f),
                Err(m) => r matches Err(x) && x@ == m,
            },
    {
        ExportFormat::parse(s)
    }
}

/// Simplified node representation for topology graphs and exports.
#[derive(Debug, Clone, PartialEq, Eq)]
pub struct FleetNode {
    pub name: String,
    pub target_host: String,
    pub tags: Vec<String>,
    pub role: Option<String>,
    pub system: Option<String>,
    pub is_local: bool,
}

/// Complete fleet topology graph and inventory collection.
#[derive(Debug, Clone, PartialEq, Eq)]
pub struct FleetTopology {
    pub nodes: Vec<FleetNode>,
    pub flake_uri: String,
}

// ----- sorted listings -------------------------------------------------

/// Every element sorts before every later one: ascending, no repeats.
pub open spec fn strictly_sorted(r: Seq<Seq<char>>) -> bool {
    forall|i: int, j: int| #![trigger r[i], r[j]] 0 <= i < j < r.len() ==> seq_lt(r[i], r[j])
}

/// `r` lists exactly the members of `s`, in ascending order.
pub open spec fn lists(r: Seq<Seq<char>>, s: Set<Seq<char>>) -> bool {
    &&& strictly_sorted(r)
    &&& forall|x: Seq<char>| r.contains(x) <==> s.contains(x)
}

/// The members of `s` in ascending order (see [`lemma_listing_unique`]).
pub open spec fn sorted_listing(s: Set<Seq<char>>) -> Seq<Seq<char>> {
    choose|r: Seq<Seq<char>>| lists(r, s)
}

/// A set has at most one ascending listing.
pub proof fn lemma_listing_unique(a: Seq<Seq<char>>, b: Seq<Seq<char>>, s: Set<Seq<char>>)
    requires
        lists(a, s),
        lists(b, s),
    ensures
        a == b,
    decreases a.len(),
{
    if a.len() == 0 {
        if b.len() > 0 {
            assert(b.contains(b[0]));
        }
        assert(a =~= b);
    } else if b.len() == 0 {
        assert(a.contains(a[0]));
    } else {
        assert(a.contains(a[0]));
        assert(b.contains(b[0]));
        let i = choose|i: int| 0 <= i < a.len() && a[i] == b[0];
        let j = choose|j: int| 0 <= j < b.len() && b[j] == a[0];
        if a[0] != b[0] {
            assert(seq_lt(a[0], a[i]));
            assert(seq_lt(b[0], b[j]));
            lemma_seq_lt_asym(a[0], b[0]);
        }
        let a1 = a.drop_first();
        let b1 = b.drop_first();
        let s1 = s.remove(a[0]);
        lemma_seq_lt_asym(a[0], a[0]);
        assert forall|x: Seq<char>| a1.contains(x) <==> s1.contains(x) by {
            if a1.contains(x) {
                let k = choose|k: int| 0 <= k < a1.len() && a1[k] == x;
                assert(a[k + 1] == x);
                assert(seq_lt(a[0], a[k + 1]));
            }
            if s1.contains(x) {
                assert(a.contains(x));
                let k = choose|k: int| 0 <= k < a.len() && a[k] == x;
                assert(k != 0);
                assert(a1[k - 1] == x);
            }
        }
        assert forall|x: Seq<char>| b1.contains(x) <==> s1.contains(x) by {
            if b1.contains(x) {
                let k = choose|k: int| 0 <= k < b1.len() && b1[k] == x;
                assert(b[k + 1] == x);
                assert(seq_lt(b[0], b[k + 1]));
            }
            if s1.contains(x) {
                assert(b.contains(x));
                let k = choose|k: int| 0 <= k < b.len() && b[k] == x;
                assert(k != 0);
                assert(b1[k - 1] == x);
            }
        }
        assert forall|p: int, q: int| #![trigger a1[p], a1[q]] 0 <= p < q < a1.len() implies seq_lt(a1[p], a1[q]) by {
            assert(seq_lt(a[p + 1], a[q + 1]));
        }
        assert forall|p: int, q: int| #![trigger b1[p], b1[q]] 0 <= p < q < b1.len() implies seq_lt(b1[p], b1[q]) by {
            assert(seq_lt(b[p + 1], b[q + 1]));
        }
        lemma_listing_unique(a1, b1, s1);
        assert(a =~= seq![a[0]] + a1);
        assert(b =~= seq![b[0]] + b1);
    }
}

/// Any ascending listing of `s` is [`sorted_listing`]`(s)`.
pub proof fn lemma_listing_exact(r: Seq<Seq<char>>, s: Set<Seq<char>>)
    requires
        lists(r, s),
    ensures
        sorted_listing(s) == r,
{
    lemma_listing_unique(sorted_listing(s), r, s);
}

/// Inserts `x` into an ascending list unless it is already there.
fn insert_listed(list: &mut Vec<String>, x: &str)
    requires
        strictly_sorted(views(old(list)@)),
    ensures
        strictly_sorted(views(final(list)@)),
        forall|y: Seq<char>| views(final(list)@).contains(y) <==> (views(old(list)@).contains(y) || y == x@),
{
    let ghost v0 = views(list@);
    let mut i: usize = 0;
    while i < list.len() && str_lt(list[i].as_str(), x)
        invariant
            i <= list@.len(),
            views(list@) == v0,
            forall|k: int| 0 <= k < i ==> seq_lt(#[trigger] v0[k], x@),
        decreases list@.len() - i,
    {
        i += 1;
    }
    if i < list.len() && str_eq(list[i].as_str(), x) {
        proof {
            assert(v0[i as int] == x@);
        }
        return;
    }
    let ghost pos = i as int;
    proof {
        if pos < v0.len() {
            lemma_seq_lt_total(v0[pos], x@);
        }
    }
    list.insert(i, String::from_str(x));
    proof {
        let w = views(list@);
        assert(w =~= v0.insert(pos, x@));
        assert forall|p: int, q: int| #![trigger w[p], w[q]] 0 <= p < q < w.len() implies seq_lt(w[p], w[q]) by {
            if q < pos {
                assert(seq_lt(v0[p], v0[q]));
            } else if q == pos {
                assert(seq_lt(v0[p], x@));
            } else if p < pos {
                assert(seq_lt(v0[p], v0[q - 1]));
            } else if p == pos {
                if q - 1 > pos {
                    assert(seq_lt(v0[pos], v0[q - 1]));
                    lemma_seq_lt_trans(x@, v0[pos], v0[q - 1]);
                }
            } else {
                assert(seq_lt(v0[p - 1], v0[q - 1]));
            }
        }
        assert forall|y: Seq<char>| w.contains(y) <==> (v0.contains(y) || y == x@) by {
            if w.contains(y) {
                let k = choose|k: int| 0 <= k < w.len() && w[k] == y;
                if k < pos {
                    assert(v0[k] == y);
                } else if k > pos {
                    assert(v0[k - 1] == y);
                }
            }
            if v0.contains(y) {
                let k = choose|k: int| 0 <= k < v0.len() && v0[k] == y;
                if k < pos {
                    assert(w[k] == y);
                } else {
                    assert(w[k + 1] == y);
                }
            }
            if y == x@ {
                assert(w[pos] == y);
            }
        }
    }
}

// ----- the sets a rendering lists ---------------------------------------

/// The names of the nodes.
pub open spec fn name_set(nodes: Seq<FleetNode>) -> Set<Seq<char>> {
    Set::new(|x: Seq<char>| exists|j: int| #![trigger nodes[j]] 0 <= j < nodes.len() && nodes[j].name@ == x)
}

/// The roles that some node has.
pub open spec fn role_set(nodes: Seq<FleetNode>) -> Set<Seq<char>> {
    Set::new(|x: Seq<char>| exists|j: int| #![trigger nodes[j]] 0 <= j < nodes.len() && opt_view(nodes[j].role) == Some(x))
}

/// The tags that some node carries.
pub open spec fn tag_set(nodes: Seq<FleetNode>) -> Set<Seq<char>> {
    Set::new(|x: Seq<char>| exists|j: int| #![trigger nodes[j]] 0 <= j < nodes.len() && views(nodes[j].tags@).contains(x))
}

/// The names of the nodes whose role is `r`.
pub open spec fn role_hosts(nodes: Seq<FleetNode>, r: Seq<char>) -> Set<Seq<char>> {
    Set::new(|x: Seq<char>| exists|j: int| #![trigger nodes[j]] 0 <= j < nodes.len() && opt_view(nodes[j].role) == Some(r) && nodes[j].name@ == x)
}

/// The names of the nodes tagged `t`.
pub open spec fn tag_hosts(nodes: Seq<FleetNode>, t: Seq<char>) -> Set<Seq<char>> {
    Set::new(|x: Seq<char>| exists|j: int| #![trigger nodes[j]] 0 <= j < nodes.len() && views(nodes[j].tags@).contains(t) && nodes[j].name@ == x)
}

/// The names of the nodes `j` with `keep[j]`.
pub open spec fn kept_names(nodes: Seq<FleetNode>, keep: Seq<bool>) -> Set<Seq<char>> {
    Set::new(|x: Seq<char>| exists|j: int| #![trigger nodes[j]] 0 <= j < nodes.len() && keep[j] && nodes[j].name@ == x)
}

/// The names of the nodes `j` with `keep[j]`, ascending, each once.
fn names_where(nodes: &Vec<FleetNode>, keep: &Vec<bool>) -> (r: Vec<String>)
    requires
        keep@.len() == nodes@.len(),
    ensures
        lists(views(r@), kept_names(nodes@, keep@)),
{
    let mut r: Vec<String> = Vec::new();
    let mut i: usize = 0;
    while i < nodes.len()
        invariant
            i <= nodes@.len(),
            keep@.len() == nodes@.len(),
            strictly_sorted(views(r@)),
            forall|x: Seq<char>| views(r@).contains(x) <==> exists|j: int| #![trigger nodes@[j]] 0 <= j < i && keep@[j] && nodes@[j].name@ == x,
        decreases nodes@.len() - i,
    {
        if keep[i] {
            insert_listed(&mut r, nodes[i].name.as_str());
        }
        proof {
            assert forall|x: Seq<char>| views(r@).contains(x) <==> exists|j: int| #![trigger nodes@[j]] 0 <= j < i + 1 && keep@[j] && nodes@[j].name@ == x by {
                if keep@[i as int] && nodes@[i as int].name@ == x {
                    assert(nodes@[i as int] == nodes@[i as int]);
                }
            }
        }
        i += 1;
    }
    proof {
        assert forall|x: Seq<char>| views(r@).contains(x) <==> kept_names(nodes@, keep@).contains(x) by {}
    }
    r
}

/// The roles of the nodes, ascending, each once.
fn roles_listed(nodes: &Vec<FleetNode>) -> (r: Vec<String>)
    ensures
        views(r@) == sorted_listing(role_set(nodes@)),
{
    let mut r: Vec<String> = Vec::new();
    let mut i: usize = 0;
    while i < nodes.len()
        invariant
            i <= nodes@.len(),
            strictly_sorted(views(r@)),
            forall|x: Seq<char>| views(r@).contains(x) <==> exists|j: int| #![trigger nodes@[j]] 0 <= j < i && opt_view(nodes@[j].role) == Some(x),
        decreases nodes@.len() - i,
    {
        match &nodes[i].role {
            Some(role) => {
                insert_listed(&mut r, role.as_str());
            },
            None => {},
        }
        proof {
            assert forall|x: Seq<char>| views(r@).contains(x) <==> exists|j: int| #![trigger nodes@[j]] 0 <= j < i + 1 && opt_view(nodes@[j].role) == Some(x) by {
                if opt_view(nodes@[i as int].role) == Some(x) {
                    assert(nodes@[i as int] == nodes@[i as int]);
                }
            }
        }
        i += 1;
    }
    proof {
        assert forall|x: Seq<char>| views(r@).contains(x) <==> role_set(nodes@).contains(x) by {}
        lemma_listing_exact(views(r@), role_set(nodes@));
    }
    r
}

/// The tags of the nodes, ascending, each once.
fn tags_listed(nodes: &Vec<FleetNode>) -> (r: Vec<String>)
    ensures
        views(r@) == sorted_listing(tag_set(nodes@)),
{
    let mut r: Vec<String> = Vec::new();
    let mut i: usize = 0;
    while i < nodes.len()
        invariant
            i <= nodes@.len(),
            strictly_sorted(views(r@)),
            forall|x: Seq<char>| views(r@).contains(x) <==> exists|j: int| #![trigger nodes@[j]] 0 <= j < i && views(nodes@[j].tags@).contains(x),
        decreases nodes@.len() - i,
    {
        let tags = &nodes[i].tags;
        let mut k: usize = 0;
        while k < tags.len()
            invariant
                i < nodes@.len(),
                tags == nodes@[i as int].tags,
                k <= tags@.len(),
                strictly_sorted(views(r@)),
                forall|x: Seq<char>| views(r@).contains(x) <==> ((exists|j: int| #![trigger nodes@[j]] 0 <= j < i && views(nodes@[j].tags@).contains(x))
                    || views(tags@).take(k as int).contains(x)),
            decreases tags@.len() - k,
        {
            insert_listed(&mut r, tags[k].as_str());
            proof {
                let tk = views(tags@).take(k as int + 1);
                let t0 = views(tags@).take(k as int);
                assert(tk =~= t0.push(tags@[k as int]@));
                assert forall|x: Seq<char>| tk.contains(x) <==> (t0.contains(x) || x == tags@[k as int]@) by {
                    if tk.contains(x) {
                        let m = choose|m: int| 0 <= m < tk.len() && tk[m] == x;
                        if m < k {
                            assert(t0[m] == x);
                        }
                    }
                    if t0.contains(x) {
                        let m = choose|m: int| 0 <= m < t0.len() && t0[m] == x;
                        assert(tk[m] == x);
                    }
                    if x == tags@[k as int]@ {
                        assert(tk[k as int] == x);
                    }
                }
            }
            k += 1;
        }
        proof {
            assert(views(tags@).take(k as int) =~= views(tags@));
            assert forall|x: Seq<char>| views(r@).contains(x) <==> exists|j: int| #![trigger nodes@[j]] 0 <= j < i + 1 && views(nodes@[j].tags@).contains(x) by {
                if views(nodes@[i as int].tags@).contains(x) {
                    assert(nodes@[i as int] == nodes@[i as int]);
                }
            }
        }
        i += 1;
    }
    proof {
        assert forall|x: Seq<char>| views(r@).contains(x) <==> tag_set(nodes@).contains(x) by {}
        lemma_listing_exact(views(r@), tag_set(nodes@));
    }
    r
}

/// `t` is one of `tags`.
fn has_tag(tags: &Vec<String>, t: &str) -> (b: bool)
    ensures
        b == views(tags@).contains(t@),
{
    let mut k: usize = 0;
    while k < tags.len()
        invariant
            k <= tags@.len(),
            forall|m: int| 0 <= m < k ==> tags@[m]@ != t@,
        decreases tags@.len() - k,
    {
        if str_eq(tags[k].as_str(), t) {
            proof {
                assert(views(tags@)[k as int] == t@);
            }
            return true;
        }
        k += 1;
    }
    proof {
        if views(tags@).contains(t@) {
            let m = choose|m: int| 0 <= m < views(tags@).len() && views(tags@)[m] == t@;
            assert(tags@[m]@ == t@);
        }
    }
    false
}

/// The names of the nodes whose role is `role`, ascending, each once.
fn role_hosts_listed(nodes: &Vec<FleetNode>, role: &str) -> (r: Vec<String>)
    ensures
        views(r@) == sorted_listing(role_hosts(nodes@, role@)),
{
    let mut keep: Vec<bool> = Vec::new();
    let mut i: usize = 0;
    while i < nodes.len()
        invariant
            i <= nodes@.len(),
            keep@.len() == i,
            forall|j: int| 0 <= j < i ==> keep@[j] == (opt_view(nodes@[j].role) == Some(role@)),
        decreases nodes@.len() - i,
    {
        let k = match &nodes[i].role {
            Some(x) => str_eq(x.as_str(), role),
            None => false,
        };
        keep.push(k);
        i += 1;
    }
    let r = names_where(nodes, &keep);
    proof {
        assert(kept_names(nodes@, keep@) =~= role_hosts(nodes@, role@));
        lemma_listing_exact(views(r@), role_hosts(nodes@, role@));
    }
    r
}

/// The names of the nodes tagged `tag`, ascending, each once.
fn tag_hosts_listed(nodes: &Vec<FleetNode>, tag: &str) -> (r: Vec<String>)
    ensures
        views(r@) == sorted_listing(tag_hosts(nodes@, tag@)),
{
    let mut keep: Vec<bool> = Vec::new();
    let mut i: usize = 0;
    while i < nodes.len()
        invariant
            i <= nodes@.len(),
            keep@.len() == i,
            forall|j: int| 0 <= j < i ==> keep@[j] == views(nodes@[j].tags@).contains(tag@),
        decreases nodes@.len() - i,
    {
        let k = has_tag(&nodes[i].tags, tag);
        keep.push(k);
        i += 1;
    }
    let r = names_where(nodes, &keep);
    proof {
        assert(kept_names(nodes@, keep@) =~= tag_hosts(nodes@, tag@));
        lemma_listing_exact(views(r@), tag_hosts(nodes@, tag@));
    }
    r
}

/// The node names, ascending, each once.
fn names_listed(nodes: &Vec<FleetNode>) -> (r: Vec<String>)
    ensures
        views(r@) == sorted_listing(name_set(nodes@)),
{
    let mut keep: Vec<bool> = Vec::new();
    let mut i: usize = 0;
    while i < nodes.len()
        invariant
            i <= nodes@.len(),
            keep@.len() == i,
            forall|j: int| 0 <= j < i ==> keep@[j],
        decreases nodes@.len() - i,
    {
        keep.push(true);
        i += 1;
    }
    let r = names_where(nodes, &keep);
    proof {
        assert(kept_names(nodes@, keep@) =~= name_set(nodes@));
        lemma_listing_exact(views(r@), name_set(nodes@));
    }
    r
}

// ----- renderings -------------------------------------------------------

/// `o`'s text, or `d` when it has none.
pub open spec fn or_text(o: Option<Seq<char>>, d: Seq<char>) -> Seq<char> {
    match o {
        Some(x) => x,
        None => d,
    }
}

/// Exec form of [`or_text`].
fn text_or(o: &Option<String>, d: &str) -> (r: String)
    ensures
        r@ == or_text(opt_view(*o), d@),
{
    match o {
        Some(x) => x.clone(),
        None => String::from_str(d),
    }
}

/// The Mermaid line declaring node `n`.
pub open spec fn mermaid_node_line(n: FleetNode) -> Seq<char> {
    "    "@ + n.name@ + "[\""@ + n.name@ + "\\n<i>role: "@ + or_text(opt_view(n.role), "node"@) + " | arch: "@
        + or_text(opt_view(n.system), "unknown"@) + "</i>\"]\n"@
}

/// The Mermaid lines declaring `nodes`, in order.
pub open spec fn mermaid_nodes(nodes: Seq<FleetNode>) -> Seq<char>
    decreases nodes.len(),
{
    if nodes.len() == 0 {
        Seq::empty()
    } else {
        mermaid_nodes(nodes.drop_last()) + mermaid_node_line(nodes.last())
    }
}

/// The names of the nodes whose role is `r`, in node order.
pub open spec fn role_members(nodes: Seq<FleetNode>, r: Seq<char>) -> Seq<Seq<char>>
    decreases nodes.len(),
{
    if nodes.len() == 0 {
        Seq::empty()
    } else if opt_view(nodes.last().role) == Some(r) {
        role_members(nodes.drop_last(), r).push(nodes.last().name@)
    } else {
        role_members(nodes.drop_last(), r)
    }
}

/// One indented line per member name.
pub open spec fn member_lines(names: Seq<Seq<char>>) -> Seq<char>
    decreases names.len(),
{
    if names.len() == 0 {
        Seq::empty()
    } else {
        member_lines(names.drop_last()) + "    "@ + names.last() + "\n"@
    }
}

/// The Mermaid subgraph of role `r`.
pub open spec fn mermaid_role_block(r: Seq<char>, nodes: Seq<FleetNode>) -> Seq<char> {
    "  subgraph Role_"@ + r + "[\"Role: "@ + r + "\"]\n"@ + member_lines(role_members(nodes, r)) + "  end\n"@
}

/// The Mermaid subgraphs of `roles`, in order.
pub open spec fn mermaid_role_blocks(roles: Seq<Seq<char>>, nodes: Seq<FleetNode>) -> Seq<char>
    decreases roles.len(),
{
    if roles.len() == 0 {
        Seq::empty()
    } else {
        mermaid_role_blocks(roles.drop_last(), nodes) + mermaid_role_block(roles.last(), nodes)
    }
}

/// The whole Mermaid diagram: the fleet subgraph with every node, then one
/// subgraph per role in ascending role order.
pub open spec fn mermaid_text(nodes: Seq<FleetNode>) -> Seq<char> {
    "graph TD\n"@ + "  subgraph Fleet[\"NixOS Fleet\"]\n"@ + mermaid_nodes(nodes) + "  end\n"@
        + mermaid_role_blocks(sorted_listing(role_set(nodes)), nodes)
}

/// The DOT statement declaring node `n`.
pub open spec fn dot_node_line(n: FleetNode) -> Seq<char> {
    "  \""@ + n.name@ + "\" [label=\""@ + n.name@ + "\\n("@ + n.target_host@ + ")\\nrole: "@
        + or_text(opt_view(n.role), "-"@) + "\"];\n"@
}

/// The DOT statements declaring `nodes`, in order.
pub open spec fn dot_nodes(nodes: Seq<FleetNode>) -> Seq<char>
    decreases nodes.len(),
{
    if nodes.len() == 0 {
        Seq::empty()
    } else {
        dot_nodes(nodes.drop_last()) + dot_node_line(nodes.last())
    }
}

/// The whole DOT graph.
pub open spec fn dot_text(nodes: Seq<FleetNode>) -> Seq<char> {
    "digraph FleetTopology {\n"@ + "  rankdir=LR;\n"@
        + "  node [shape=box, style=\"rounded,filled\", fillcolor=\"#f0f4f8\", fontname=\"Helvetica\"];\n"@
        + dot_nodes(nodes) + "}\n"@
}

/// One host variable of the inventory.
pub open spec fn var_line(k: Seq<char>, v: Seq<char>) -> Seq<char> {
    "      "@ + k + ": \""@ + v + "\"\n"@
}

/// The host variables of node `n`: its address, then its system if known.
pub open spec fn host_vars(n: FleetNode) -> Seq<char> {
    var_line("ansible_host"@, n.target_host@) + match opt_view(n.system) {
        Some(s) => var_line("nix_system"@, s),
        None => Seq::empty(),
    }
}

/// The index of the last node named `name`, or -1.
pub open spec fn last_index(nodes: Seq<FleetNode>, name: Seq<char>) -> int
    decreases nodes.len(),
{
    if nodes.len() == 0 {
        -1
    } else if nodes.last().name@ == name {
        nodes.len() - 1
    } else {
        last_index(nodes.drop_last(), name)
    }
}

/// The inventory entry of host `name`; a later node of the same name
/// replaces an earlier one.
pub open spec fn host_entry(nodes: Seq<FleetNode>, name: Seq<char>) -> Seq<char> {
    "    "@ + name + ":\n"@ + if 0 <= last_index(nodes, name) {
        host_vars(nodes[last_index(nodes, name)])
    } else {
        Seq::empty()
    }
}

/// The inventory entries of `names`, in order.
pub open spec fn host_entries(nodes: Seq<FleetNode>, names: Seq<Seq<char>>) -> Seq<char>
    decreases names.len(),
{
    if names.len() == 0 {
        Seq::empty()
    } else {
        host_entries(nodes, names.drop_last()) + host_entry(nodes, names.last())
    }
}

/// One line per member host of a group.
pub open spec fn host_lines(hosts: Seq<Seq<char>>) -> Seq<char>
    decreases hosts.len(),
{
    if hosts.len() == 0 {
        Seq::empty()
    } else {
        host_lines(hosts.drop_last()) + "        "@ + hosts.last() + ":\n"@
    }
}

/// An inventory group `prefix key` with `hosts`.
pub open spec fn group_text(prefix: Seq<char>, key: Seq<char>, hosts: Seq<Seq<char>>) -> Seq<char> {
    prefix + key + ":\n      hosts:\n"@ + host_lines(hosts)
}

/// The `role_` groups of `roles`, in order, each with its hosts ascending.
pub open spec fn role_groups(nodes: Seq<FleetNode>, roles: Seq<Seq<char>>) -> Seq<char>
    decreases roles.len(),
{
    if roles.len() == 0 {
        Seq::empty()
    } else {
        role_groups(nodes, roles.drop_last()) + group_text(
            "    role_"@,
            roles.last(),
            sorted_listing(role_hosts(nodes, roles.last())),
        )
    }
}

/// The `tag_` groups of `tags`, in order, each with its hosts ascending.
pub open spec fn tag_groups(nodes: Seq<FleetNode>, tags: Seq<Seq<char>>) -> Seq<char>
    decreases tags.len(),
{
    if tags.len() == 0 {
        Seq::empty()
    } else {
        tag_groups(nodes, tags.drop_last()) + group_text(
            "    tag_"@,
            tags.last(),
            sorted_listing(tag_hosts(nodes, tags.last())),
        )
    }
}

/// The whole inventory: every host once, by ascending name, then, when any
/// node has a role or a tag, the role groups and the tag groups.
pub open spec fn ansible_text(nodes: Seq<FleetNode>) -> Seq<char> {
    let roles = sorted_listing(role_set(nodes));
    let tags = sorted_listing(tag_set(nodes));
    "---\nall:\n  hosts:\n"@ + host_entries(nodes, sorted_listing(name_set(nodes))) + if roles.len() > 0
        || tags.len() > 0 {
        "  children:\n"@ + role_groups(nodes, roles) + tag_groups(nodes, tags)
    } else {
        Seq::empty()
    }
}

fn push_mermaid_node(out: &mut String, n: &FleetNode)
    ensures
        final(out)@ == old(out)@ + mermaid_node_line(*n),
{
    let role = text_or(&n.role, "node");
    let arch = text_or(&n.system, "unknown");
    out.append("    ");
    out.append(n.name.as_str());
    out.append("[\"");
    out.append(n.name.as_str());
    out.append("\\n<i>role: ");
    out.append(role.as_str());
    out.append(" | arch: ");
    out.append(arch.as_str());
    out.append("</i>\"]\n");
    proof {
        assert(out@ =~= old(out)@ + mermaid_node_line(*n));
    }
}

fn push_role_block(out: &mut String, role: &str, nodes: &Vec<FleetNode>)
    ensures
        final(out)@ == old(out)@ + mermaid_role_block(role@, nodes@),
{
    out.append("  subgraph Role_");
    out.append(role);
    out.append("[\"Role: ");
    out.append(role);
    out.append("\"]\n");
    let ghost base = out@;
    let mut j: usize = 0;
    while j < nodes.len()
        invariant
            j <= nodes@.len(),
            out@ == base + member_lines(role_members(nodes@.take(j as int), role@)),
        decreases nodes@.len() - j,
    {
        let n = &nodes[j];
        let hit = match &n.role {
            Some(r) => str_eq(r.as_str(), role),
            None => false,
        };
        proof {
            let t1 = nodes@.take(j as int + 1);
            assert(t1.drop_last() =~= nodes@.take(j as int));
            assert(t1.last() == nodes@[j as int]);
            let m = role_members(nodes@.take(j as int), role@);
            assert(m.push(n.name@).drop_last() =~= m);
        }
        if hit {
            out.append("    ");
            out.append(n.name.as_str());
            out.append("\n");
        }
        j += 1;
    }
    out.append("  end\n");
    proof {
        assert(nodes@.take(nodes@.len() as int) =~= nodes@);
        assert(out@ =~= old(out)@ + mermaid_role_block(role@, nodes@));
    }
}

fn push_dot_node(out: &mut String, n: &FleetNode)
    ensures
        final(out)@ == old(out)@ + dot_node_line(*n),
{
    let role = text_or(&n.role, "-");
    out.append("  \"");
    out.append(n.name.as_str());
    out.append("\" [label=\"");
    out.append(n.name.as_str());
    out.append("\\n(");
    out.append(n.target_host.as_str());
    out.append(")\\nrole: ");
    out.append(role.as_str());
    out.append("\"];\n");
    proof {
        assert(out@ =~= old(out)@ + dot_node_line(*n));
    }
}

fn push_var_line(out: &mut String, k: &str, v: &str)
    ensures
        final(out)@ == old(out)@ + var_line(k@, v@),
{
    out.append("      ");
    out.append(k);
    out.append(": \"");
    out.append(v);
    out.append("\"\n");
    proof {
        assert(out@ =~= old(out)@ + var_line(k@, v@));
    }
}

fn push_host_entry(out: &mut String, nodes: &Vec<FleetNode>, name: &str)
    ensures
        final(out)@ == old(out)@ + host_entry(nodes@, name@),
{
    let mut last: Option<usize> = None;
    let mut j: usize = 0;
    while j < nodes.len()
        invariant
            j <= nodes@.len(),
            match last {
                Some(v) => v == last_index(nodes@.take(j as int), name@) && v < j,
                None => last_index(nodes@.take(j as int), name@) == -1,
            },
        decreases nodes@.len() - j,
    {
        proof {
            let t1 = nodes@.take(j as int + 1);
            assert(t1.drop_last() =~= nodes@.take(j as int));
            assert(t1.last() == nodes@[j as int]);
        }
        if str_eq(nodes[j].name.as_str(), name) {
            last = Some(j);
        }
        j += 1;
    }
    proof {
        assert(nodes@.take(nodes@.len() as int) =~= nodes@);
    }
    out.append("    ");
    out.append(name);
    out.append(":\n");
    let ghost mid = out@;
    match last {
        Some(v) => {
            let n = &nodes[v];
            push_var_line(out, "ansible_host", n.target_host.as_str());
            match &n.system {
                Some(s) => {
                    push_var_line(out, "nix_system", s.as_str());
                },
                None => {},
            }
            proof {
                assert(out@ =~= mid + host_vars(nodes@[v as int]));
            }
        },
        None => {},
    }
    proof {
        assert(out@ =~= old(out)@ + host_entry(nodes@, name@));
    }
}

fn push_group(out: &mut String, prefix: &str, key: &str, hosts: &Vec<String>)
    ensures
        final(out)@ == old(out)@ + group_text(prefix@, key@, views(hosts@)),
{
    out.append(prefix);
    out.append(key);
    out.append(":\n      hosts:\n");
    let ghost base = out@;
    let mut k: usize = 0;
    while k < hosts.len()
        invariant
            k <= hosts@.len(),
            out@ == base + host_lines(views(hosts@).take(k as int)),
        decreases hosts@.len() - k,
    {
        proof {
            let t1 = views(hosts@).take(k as int + 1);
            assert(t1.drop_last() =~= views(hosts@).take(k as int));
        }
        out.append("        ");
        out.append(hosts[k].as_str());
        out.append(":\n");
        k += 1;
    }
    proof {
        assert(views(hosts@).take(hosts@.len() as int) =~= views(hosts@));
        assert(out@ =~= old(out)@ + group_text(prefix@, key@, views(hosts@)));
    }
}

impl FleetTopology {
    /// Renders topology as a Mermaid diagram.
    pub fn to_mermaid(&self) -> (s: String)
        ensures
            s@ == mermaid_text(self.nodes@),
    {
        let nodes = &self.nodes;
        let mut out = String::from_str("graph TD\n");
        out.append("  subgraph Fleet[\"NixOS Fleet\"]\n");
        let ghost head = out@;
        let mut i: usize = 0;
        while i < nodes.len()
            invariant
                i <= nodes@.len(),
                out@ == head + mermaid_nodes(nodes@.take(i as int)),
            decreases nodes@.len() - i,
        {
            proof {
                let t1 = nodes@.take(i as int + 1);
                assert(t1.drop_last() =~= nodes@.take(i as int));
            }
            push_mermaid_node(&mut out, &nodes[i]);
            proof {
                assert(out@ =~= head + mermaid_nodes(nodes@.take(i as int + 1)));
            }
            i += 1;
        }
        proof {
            assert(nodes@.take(nodes@.len() as int) =~= nodes@);
        }
        out.append("  end\n");
        let roles = roles_listed(nodes);
        let ghost mid = out@;
        let mut k: usize = 0;
        while k < roles.len()
            invariant
                k <= roles@.len(),
                out@ == mid + mermaid_role_blocks(views(roles@).take(k as int), nodes@),
            decreases roles@.len() - k,
        {
            proof {
                let t1 = views(roles@).take(k as int + 1);
                assert(t1.drop_last() =~= views(roles@).take(k as int));
            }
            push_role_block(&mut out, roles[k].as_str(), nodes);
            proof {
                assert(out@ =~= mid + mermaid_role_blocks(views(roles@).take(k as int + 1), nodes@));
            }
            k += 1;
        }
        proof {
            assert(views(roles@).take(roles@.len() as int) =~= views(roles@));
            assert(out@ =~= mermaid_text(nodes@));
        }
        out
    }

    /// Renders topology as Graphviz DOT.
    pub fn to_dot(&self) -> (s: String)
        ensures
            s@ == dot_text(self.nodes@),
    {
        let nodes = &self.nodes;
        let mut out = String::from_str("digraph FleetTopology {\n");
        out.append("  rankdir=LR;\n");
        out.append("  node [shape=box, style=\"rounded,filled\", fillcolor=\"#f0f4f8\", fontname=\"Helvetica\"];\n");
        let ghost head = out@;
        let mut i: usize = 0;
        while i < nodes.len()
            invariant
                i <= nodes@.len(),
                out@ == head + dot_nodes(nodes@.take(i as int)),
            decreases nodes@.len() - i,
        {
            proof {
                let t1 = nodes@.take(i as int + 1);
                assert(t1.drop_last() =~= nodes@.take(i as int));
            }
            push_dot_node(&mut out, &nodes[i]);
            proof {
                assert(out@ =~= head + dot_nodes(nodes@.take(i as int + 1)));
            }
            i += 1;
        }
        proof {
            assert(nodes@.take(nodes@.len() as int) =~= nodes@);
        }
        out.append("}\n");
        proof {
            assert(out@ =~= dot_text(nodes@));
        }
        out
    }

    /// Renders topology as an Ansible YAML inventory.
    pub fn to_ansible_inventory(&self) -> (s: String)
        ensures
            s@ == ansible_text(self.nodes@),
    {
        let nodes = &self.nodes;
        let names = names_listed(nodes);
        let mut out = String::from_str("---\nall:\n  hosts:\n");
        let ghost head = out@;
        let mut k: usize = 0;
        while k < names.len()
            invariant
                k <= names@.len(),
                out@ == head + host_entries(nodes@, views(names@).take(k as int)),
            decreases names@.len() - k,
        {
            proof {
                let t1 = views(names@).take(k as int + 1);
                assert(t1.drop_last() =~= views(names@).take(k as int));
            }
            push_host_entry(&mut out, nodes, names[k].as_str());
            proof {
                assert(out@ =~= head + host_entries(nodes@, views(names@).take(k as int + 1)));
            }
            k += 1;
        }
        proof {
            assert(views(names@).take(names@.len() as int) =~= views(names@));
        }
        let roles = roles_listed(nodes);
        let tags = tags_listed(nodes);
        if roles.len() > 0 || tags.len() > 0 {
            out.append("  children:\n");
            let ghost mid = out@;
            let mut a: usize = 0;
            while a < roles.len()
                invariant
                    a <= roles@.len(),
                    out@ == mid + role_groups(nodes@, views(roles@).take(a as int)),
                decreases roles@.len() - a,
            {
                proof {
                    let t1 = views(roles@).take(a as int + 1);
                    assert(t1.drop_last() =~= views(roles@).take(a as int));
                }
                let hosts = role_hosts_listed(nodes, roles[a].as_str());
                push_group(&mut out, "    role_", roles[a].as_str(), &hosts);
                proof {
                    assert(out@ =~= mid + role_groups(nodes@, views(roles@).take(a as int + 1)));
                }
                a += 1;
            }
            proof {
                assert(views(roles@).take(roles@.len() as int) =~= views(roles@));
            }
            let ghost mid2 = out@;
            let mut b: usize = 0;
            while b < tags.len()
                invariant
                    b <= tags@.len(),
                    out@ == mid2 + tag_groups(nodes@, views(tags@).take(b as int)),
                decreases tags@.len() - b,
            {
                proof {
                    let t1 = views(tags@).take(b as int + 1);
                    assert(t1.drop_last() =~= views(tags@).take(b as int));
                }
                let hosts = tag_hosts_listed(nodes, tags[b].as_str());
                push_group(&mut out, "    tag_", tags[b].as_str(), &hosts);
                proof {
                    assert(out@ =~= mid2 + tag_groups(nodes@, views(tags@).take(b as int + 1)));
                }
                b += 1;
            }
            proof {
                assert(views(tags@).take(tags@.len() as int) =~= views(tags@));
                assert(out@ =~= ansible_text(nodes@));
            }
        } else {
            proof {
                assert(out@ =~= ansible_text(nodes@));
            }
        }
        out
    }
}

// ----- Prometheus service discovery -------------------------------------

/// One Prometheus target group: its targets and its labels, the labels in
/// ascending name order.
#[derive(Debug, Clone, PartialEq, Eq)]
pub struct PromTargetGroup {
    pub targets: Vec<String>,
    pub labels: Vec<(String, String)>,
}

/// The scrape address of node `n`: its target host, with the
/// node_exporter port 9100 when the host names no port.
pub open spec fn prom_target(n: FleetNode) -> Seq<char> {
    if has_infix(n.target_host@, ":"@) {
        n.target_host@
    } else {
        n.target_host@ + ":9100"@
    }
}

/// The labels of node `n`: `arch` (its system, if known), `instance` (its
/// name), `role` (if any) and `tags` (comma-joined, if any).
pub open spec fn prom_labels(n: FleetNode) -> Seq<(Seq<char>, Seq<char>)> {
    (match opt_view(n.system) {
        Some(s) => seq![("arch"@, s)],
        None => Seq::empty(),
    }) + seq![("instance"@, n.name@)] + (match opt_view(n.role) {
        Some(r) => seq![("role"@, r)],
        None => Seq::empty(),
    }) + (if n.tags@.len() > 0 {
        seq![("tags"@, joined(views(n.tags@), ","@))]
    } else {
        Seq::empty()
    })
}

/// The views of a list of labels.
pub open spec fn label_views(l: Seq<(String, String)>) -> Seq<(Seq<char>, Seq<char>)> {
    l.map_values(|p: (String, String)| (p.0@, p.1@))
}

/// The label names of a list of labels.
pub open spec fn label_names(l: Seq<(Seq<char>, Seq<char>)>) -> Seq<Seq<char>> {
    l.map_values(|p: (Seq<char>, Seq<char>)| p.0)
}

/// Every node's labels come in ascending name order, each name once.
pub proof fn lemma_prom_labels_sorted(n: FleetNode)
    ensures
        strictly_sorted(label_names(prom_labels(n))),
{
    reveal_strlit("arch");
    reveal_strlit("instance");
    reveal_strlit("role");
    reveal_strlit("tags");
    let names = label_names(prom_labels(n));
    assert(seq_lt("arch"@, "instance"@));
    assert(seq_lt("instance"@, "role"@));
    assert(seq_lt("role"@, "tags"@));
    lemma_seq_lt_trans("arch"@, "instance"@, "role"@);
    lemma_seq_lt_trans("arch"@, "role"@, "tags"@);
    lemma_seq_lt_trans("instance"@, "role"@, "tags"@);
    let a: Seq<Seq<char>> = if n.system is Some { seq!["arch"@] } else { Seq::empty() };
    let r: Seq<Seq<char>> = if n.role is Some { seq!["role"@] } else { Seq::empty() };
    let t: Seq<Seq<char>> = if n.tags@.len() > 0 { seq!["tags"@] } else { Seq::empty() };
    assert(names =~= a + seq!["instance"@] + r + t);
}

/// The target group of node `n`.
fn prom_group(n: &FleetNode) -> (g: PromTargetGroup)
    ensures
        views(g.targets@) == seq![prom_target(*n)],
        label_views(g.labels@) == prom_labels(*n),
{
    let target = if contains_str(n.target_host.as_str(), ":") {
        n.target_host.clone()
    } else {
        let mut t = n.target_host.clone();
        t.append(":9100");
        t
    };
    let mut targets: Vec<String> = Vec::new();
    targets.push(target);
    let mut labels: Vec<(String, String)> = Vec::new();
    match &n.system {
        Some(s) => {
            labels.push((String::from_str("arch"), s.clone()));
        },
        None => {},
    }
    labels.push((String::from_str("instance"), n.name.clone()));
    match &n.role {
        Some(r) => {
            labels.push((String::from_str("role"), r.clone()));
        },
        None => {},
    }
    if n.tags.len() > 0 {
        labels.push((String::from_str("tags"), join(&n.tags, ",")));
    }
    proof {
        assert(views(targets@) =~= seq![prom_target(*n)]);
        assert(label_views(labels@) =~= prom_labels(*n));
    }
    PromTargetGroup { targets, labels }
}

impl FleetTopology {
    /// The Prometheus file/HTTP service-discovery target groups, one per
    /// node in node order (serialised to JSON by the caller).
    pub fn prometheus_groups(&self) -> (g: Vec<PromTargetGroup>)
        ensures
            g@.len() == self.nodes@.len(),
            forall|i: int| #![trigger g@[i]] 0 <= i < g@.len() ==> views(g@[i].targets@) == seq![prom_target(self.nodes@[i])]
                && label_views(g@[i].labels@) == prom_labels(self.nodes@[i]),
    {
        let mut g: Vec<PromTargetGroup> = Vec::new();
        let mut i: usize = 0;
        while i < self.nodes.len()
            invariant
                i <= self.nodes@.len(),
                g@.len() == i,
                forall|k: int| #![trigger g@[k]] 0 <= k < i ==> views(g@[k].targets@) == seq![prom_target(self.nodes@[k])]
                    && label_views(g@[k].labels@) == prom_labels(self.nodes@[k]),
            decreases self.nodes@.len() - i,
        {
            let one = prom_group(&self.nodes[i]);
            g.push(one);
            i += 1;
        }
        g
    }
}

/// The DOT declaration of a host: its name, its target in brackets and the
/// role it is shown with.
pub open spec fn dot_declaration(name: Seq<char>, target: Seq<char>, role: Seq<char>) -> Seq<char> {
    "  \""@ + name + "\" [label=\""@ + name + "\\n("@ + target + ")\\nrole: "@ + role + "\"];\n"@
}

/// Text found in `a` is found in `p + a + q`.
proof fn lemma_infix_within(p: Seq<char>, a: Seq<char>, q: Seq<char>, needle: Seq<char>)
    requires
        has_infix(a, needle),
    ensures
        has_infix(p + a + q, needle),
{
    let i = choose|i: int| #[trigger] crate::text::occurs_at(a, needle, i);
    assert((p + a + q).subrange(p.len() + i, p.len() + i + needle.len()) =~= a.subrange(i, i + needle.len()));
    assert(crate::text::occurs_at(p + a + q, needle, p.len() + i));
}

/// Every node's declaration is among the DOT node statements.
proof fn lemma_dot_nodes_declare(nodes: Seq<FleetNode>, k: int)
    requires
        0 <= k < nodes.len(),
    ensures
        has_infix(dot_nodes(nodes), dot_node_line(nodes[k])),
    decreases nodes.len(),
{
    let prev = nodes.drop_last();
    let line = dot_node_line(nodes.last());
    if k == nodes.len() - 1 {
        assert(dot_nodes(nodes).subrange(dot_nodes(prev).len() as int, dot_nodes(nodes).len() as int) =~= line);
        assert(crate::text::occurs_at(dot_nodes(nodes), line, dot_nodes(prev).len() as int));
    } else {
        lemma_dot_nodes_declare(prev, k);
        assert(prev[k] == nodes[k]);
        lemma_infix_within(Seq::empty(), dot_nodes(prev), line, dot_node_line(nodes[k]));
        assert(Seq::<char>::empty() + dot_nodes(prev) + line =~= dot_nodes(nodes));
    }
}

/// The DOT graph declares every host with its own role: a host with role
/// `r` is labelled `role: r`, and only a host without a role is labelled
/// `role: -`.
pub proof fn lemma_dot_shows_roles(nodes: Seq<FleetNode>)
    ensures
        forall|k: int|
            0 <= k < nodes.len() ==> has_infix(
                dot_text(nodes),
                dot_declaration(
                    (#[trigger] nodes[k]).name@,
                    nodes[k].target_host@,
                    match nodes[k].role {
                        Some(r) => r@,
                        None => "-"@,
                    },
                ),
            ),
{
    assert forall|k: int| 0 <= k < nodes.len() implies has_infix(
        dot_text(nodes),
        dot_declaration(
            (#[trigger] nodes[k]).name@,
            nodes[k].target_host@,
            match nodes[k].role {
                Some(r) => r@,
                None => "-"@,
            },
        ),
    ) by {
        lemma_dot_nodes_declare(nodes, k);
        let head = "digraph FleetTopology {\n"@ + "  rankdir=LR;\n"@
            + "  node [shape=box, style=\"rounded,filled\", fillcolor=\"#f0f4f8\", fontname=\"Helvetica\"];\n"@;
        lemma_infix_within(head, dot_nodes(nodes), "}\n"@, dot_node_line(nodes[k]));
        assert(dot_node_line(nodes[k]) == dot_declaration(
            nodes[k].name@,
            nodes[k].target_host@,
            match nodes[k].role {
                Some(r) => r@,
                None => "-"@,
            },
        ));
    }
}

} // verus!
