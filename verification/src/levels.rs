//! Layering of a dependency graph into topological levels.
//!
//! The graph is given by the predecessor relation `rel(u, v)` ("`u` must come
//! before `v`") over the nodes `0..n`. A node is *settled within `k` rounds*
//! when every predecessor is settled within `k - 1` rounds; level `k` holds
//! the nodes settled within `k + 1` rounds but not within `k`. Nodes on or
//! behind a cycle are never settled.

use vstd::prelude::*;

verus! {

/// The contents of a vector of index vectors.
pub open spec fn nested(v: Seq<Vec<usize>>) -> Seq<Seq<usize>> {
    v.map_values(|l: Vec<usize>| l@)
}

/// `v` is settled within `k` rounds.
pub open spec fn settled(rel: spec_fn(usize, usize) -> bool, n: usize, v: usize, k: nat) -> bool
    decreases k,
{
    if k == 0 {
        false
    } else {
        forall|u: usize| u < n && #[trigger] rel(u, v) ==> settled(rel, n, u, (k - 1) as nat)
    }
}

/// `v` is settled within some number of rounds: no cycle lies at or behind it.
pub open spec fn resolvable(rel: spec_fn(usize, usize) -> bool, n: usize, v: usize) -> bool {
    exists|k: nat| #[trigger] settled(rel, n, v, k)
}

/// `v` belongs to level `k`.
pub open spec fn in_level(rel: spec_fn(usize, usize) -> bool, n: usize, v: usize, k: nat) -> bool {
    0 <= v < n && settled(rel, n, v, k + 1) && !settled(rel, n, v, k)
}

/// The last position in `prev` that holds a predecessor of `w`, or `-1`.
pub open spec fn last_pred_pos(rel: spec_fn(usize, usize) -> bool, prev: Seq<usize>, w: usize) -> int
    decreases prev.len(),
{
    if prev.len() == 0 {
        -1
    } else if rel(prev.last(), w) {
        prev.len() - 1
    } else {
        last_pred_pos(rel, prev.drop_last(), w)
    }
}

/// `next` is ordered by the position of each node's last predecessor in
/// `prev`, ties broken by node index.
pub open spec fn ordered_after(rel: spec_fn(usize, usize) -> bool, prev: Seq<usize>, next: Seq<usize>) -> bool {
    sorted_after(rel, prev, next)
}

/// `s` is strictly ascending.
pub open spec fn ascending(s: Seq<usize>) -> bool {
    forall|i: int, j: int| 0 <= i < j < s.len() ==> s[i] < s[j]
}

/// The full characterisation of the levels of the graph `rel` on `0..n`.
pub open spec fn are_levels(rel: spec_fn(usize, usize) -> bool, n: usize, levels: Seq<Seq<usize>>) -> bool {
    &&& forall|k: int|
        0 <= k < levels.len() ==> #[trigger] levels[k].len() > 0 && levels[k].no_duplicates()
    &&& forall|k: int, v: usize|
        0 <= k < levels.len() && v < n ==> (#[trigger] levels[k].contains(v)
            <==> in_level(rel, n, v, k as nat))
    &&& forall|k: int, i: int|
        0 <= k < levels.len() && 0 <= i < levels[k].len() ==> #[trigger] levels[k][i] < n
    &&& levels.len() > 0 ==> ascending(levels[0])
    &&& forall|k: int|
        0 <= k && k + 1 < levels.len() ==> #[trigger] ordered_after(rel, levels[k], levels[k + 1])
    &&& forall|v: usize| v < n ==> (resolvable(rel, n, v) <==> settled(rel, n, v, levels.len()))
}

pub proof fn lemma_settled_monotone(rel: spec_fn(usize, usize) -> bool, n: usize, v: usize, k: nat)
    requires
        settled(rel, n, v, k),
    ensures
        settled(rel, n, v, k + 1),
    decreases k,
{
    if k > 0 {
        assert forall|u: usize| u < n && #[trigger] rel(u, v) implies settled(rel, n, u, k) by {
            lemma_settled_monotone(rel, n, u, (k - 1) as nat);
        }
    }
}

pub proof fn lemma_settled_monotone_to(rel: spec_fn(usize, usize) -> bool, n: usize, v: usize, k: nat, m: nat)
    requires
        settled(rel, n, v, k),
        k <= m,
    ensures
        settled(rel, n, v, m),
    decreases m - k,
{
    if k < m {
        lemma_settled_monotone(rel, n, v, k);
        lemma_settled_monotone_to(rel, n, v, k + 1, m);
    }
}

/// Once no node enters round `k + 1`, nothing is ever settled later.
pub proof fn lemma_settled_stable(rel: spec_fn(usize, usize) -> bool, n: usize, k: nat, v: usize, m: nat)
    requires
        forall|x: usize| x < n && #[trigger] settled(rel, n, x, k + 1) ==> settled(rel, n, x, k),
        settled(rel, n, v, m),
        k <= m,
        0 <= v < n,
    ensures
        settled(rel, n, v, k),
    decreases m,
{
    if m > k {
        assert forall|u: usize| u < n && #[trigger] rel(u, v) implies settled(rel, n, u, k) by {
            lemma_settled_stable(rel, n, k, u, (m - 1) as nat);
        }
        assert(settled(rel, n, v, k + 1));
    }
}

proof fn lemma_last_pred_pos_at(rel: spec_fn(usize, usize) -> bool, prev: Seq<usize>, w: usize, p: int)
    requires
        0 <= p < prev.len(),
        rel(prev[p], w),
        forall|q: int| p < q < prev.len() ==> !rel(#[trigger] prev[q], w),
    ensures
        last_pred_pos(rel, prev, w) == p,
    decreases prev.len(),
{
    if p < prev.len() - 1 {
        assert(!rel(prev[prev.len() - 1], w));
        let d = prev.drop_last();
        assert forall|q: int| p < q < d.len() implies !rel(#[trigger] d[q], w) by {
            assert(d[q] == prev[q]);
        }
        lemma_last_pred_pos_at(rel, d, w, p);
    }
}

proof fn lemma_last_pred_pos_below(rel: spec_fn(usize, usize) -> bool, prev: Seq<usize>, w: usize, p: int)
    requires
        0 <= p <= prev.len(),
        forall|q: int| p <= q < prev.len() ==> !rel(#[trigger] prev[q], w),
    ensures
        last_pred_pos(rel, prev, w) < p,
    decreases prev.len(),
{
    if prev.len() > 0 {
        if p < prev.len() {
            assert(!rel(prev[prev.len() - 1], w));
            let d = prev.drop_last();
            assert forall|q: int| p <= q < d.len() implies !rel(#[trigger] d[q], w) by {
                assert(d[q] == prev[q]);
            }
            lemma_last_pred_pos_below(rel, d, w, p);
        } else {
            let d = prev.drop_last();
            if rel(prev.last(), w) {
            } else {
                lemma_last_pred_pos_below(rel, d, w, d.len() as int);
            }
        }
    }
}

/// `true` when `x` occurs in `s`.
fn contains_index(s: &Vec<usize>, x: usize) -> (r: bool)
    ensures
        r == s@.contains(x),
{
    let mut i: usize = 0;
    while i < s.len()
        invariant
            i <= s@.len(),
            forall|j: int| 0 <= j < i ==> s@[j] != x,
        decreases s@.len() - i,
    {
        if s[i] == x {
            return true;
        }
        i += 1;
    }
    false
}

/// `true` when every entry of `s` is marked in `done`.
fn all_marked(s: &Vec<usize>, done: &Vec<bool>) -> (r: bool)
    requires
        forall|j: int| 0 <= j < s@.len() ==> (#[trigger] s@[j]) < done@.len(),
    ensures
        r == (forall|j: int| 0 <= j < s@.len() ==> done@[#[trigger] s@[j] as int]),
{
    let mut i: usize = 0;
    while i < s.len()
        invariant
            i <= s@.len(),
            forall|j: int| 0 <= j < s@.len() ==> (#[trigger] s@[j]) < done@.len(),
            forall|j: int| 0 <= j < i ==> done@[#[trigger] s@[j] as int],
        decreases s@.len() - i,
    {
        if !done[s[i]] {
            return false;
        }
        i += 1;
    }
    true
}

/// A vector of `n` copies of `false`.
fn falses(n: usize) -> (v: Vec<bool>)
    ensures
        v@.len() == n,
        forall|i: int| 0 <= i < n ==> !#[trigger] v@[i],
{
    let mut v: Vec<bool> = Vec::new();
    let mut i: usize = 0;
    while i < n
        invariant
            i <= n,
            v@.len() == i,
            forall|j: int| 0 <= j < i ==> !#[trigger] v@[j],
        decreases n - i,
    {
        v.push(false);
        i += 1;
    }
    v
}

/// Number of `false` entries of `s`.
pub open spec fn count_false(s: Seq<bool>) -> nat
    decreases s.len(),
{
    if s.len() == 0 {
        0
    } else {
        count_false(s.drop_last()) + if s.last() {
            0nat
        } else {
            1nat
        }
    }
}

proof fn lemma_count_false_set(s: Seq<bool>, i: int)
    requires
        0 <= i < s.len(),
        !s[i],
    ensures
        count_false(s.update(i, true)) + 1 == count_false(s),
    decreases s.len(),
{
    let t = s.update(i, true);
    if i == s.len() - 1 {
        assert(t.drop_last() =~= s.drop_last());
    } else {
        assert(t.drop_last() =~= s.drop_last().update(i, true));
        lemma_count_false_set(s.drop_last(), i);
    }
}

/// Computes the topological levels of the graph whose predecessors of `v`
/// are listed in `preds[v]`, together with the settled marks of every node.
pub fn topological_layers(preds: &Vec<Vec<usize>>, Ghost(rel): Ghost<spec_fn(usize, usize) -> bool>) -> (res: (Vec<Vec<usize>>, Vec<bool>))
    requires
        forall|v: usize, j: int|
            v < preds@.len() && 0 <= j < preds@[v as int]@.len() ==> #[trigger] preds@[v as int]@[j] < preds@.len(),
        forall|u: usize, v: usize|
            u < preds@.len() && v < preds@.len() ==> (#[trigger] rel(u, v)
                <==> preds@[v as int]@.contains(u)),
    ensures
        are_levels(rel, preds.len(), nested(res.0@)),
        nested(res.0@) == levels_of(rel, preds.len()),
        res.1@.len() == preds@.len(),
        forall|v: usize| v < preds@.len() ==> (#[trigger] res.1@[v as int] <==> resolvable(rel, preds.len(), v)),
{
    let n = preds.len();
    let mut done = falses(n);
    let mut levels: Vec<Vec<usize>> = Vec::new();
    let mut current: Vec<usize> = Vec::new();
    let mut v: usize = 0;
    while v < n
        invariant
            n == preds@.len(),
            v <= n,
            forall|w: usize, j: int|
                w < preds@.len() && 0 <= j < preds@[w as int]@.len() ==> #[trigger] preds@[w as int]@[j] < preds@.len(),
            forall|u: usize, w: usize|
                u < preds@.len() && w < preds@.len() ==> (#[trigger] rel(u, w)
                    <==> preds@[w as int]@.contains(u)),
            forall|x: usize| x < n ==> (#[trigger] current@.contains(x) <==> (x < v && in_level(rel, n, x, 0))),
            forall|i: int| 0 <= i < current@.len() ==> #[trigger] current@[i] < v,
            ascending(current@),
        decreases n - v,
    {
        if preds[v].len() == 0 {
            proof {
                assert forall|u: usize| u < n && #[trigger] rel(u, v) implies settled(rel, n, u, 0) by {
                    assert(preds@[v as int]@.contains(u));
                }
                assert(settled(rel, n, v, 1));
                assert(in_level(rel, n, v, 0));
            }
            let ghost before = current@;
            current.push(v);
            proof {
                assert forall|x: usize| x < n implies (#[trigger] current@.contains(x) <==> (x < v + 1 && in_level(rel, n, x, 0))) by {
                    lemma_push_contains(before, v, x);
                }
            }
        } else {
            proof {
                let u = preds@[v as int]@[0];
                assert(preds@[v as int]@.contains(u));
                assert(rel(u, v));
                assert(!settled(rel, n, u, 0));
                assert(!settled(rel, n, v, 1));
            }
        }
        v += 1;
    }
    proof {
        assert(current@.no_duplicates()) by {
            assert forall|i: int, j: int| 0 <= i < current@.len() && 0 <= j < current@.len() && i != j
                implies current@[i] != current@[j] by {
                if i < j { } else { }
            }
        }
    }
    let ghost gl = levels@.map_values(|l: Vec<usize>| l@);
    while current.len() > 0
        invariant
            n == preds@.len(),
            forall|w: usize, j: int|
                w < preds@.len() && 0 <= j < preds@[w as int]@.len() ==> #[trigger] preds@[w as int]@[j] < preds@.len(),
            forall|u: usize, w: usize|
                u < preds@.len() && w < preds@.len() ==> (#[trigger] rel(u, w)
                    <==> preds@[w as int]@.contains(u)),
            done@.len() == n,
            forall|x: usize| x < n ==> (#[trigger] done@[x as int] <==> settled(rel, n, x, levels@.len() as nat)),
            forall|x: usize| x < n ==> (#[trigger] current@.contains(x) <==> in_level(rel, n, x, levels@.len() as nat)),
            forall|i: int| 0 <= i < current@.len() ==> #[trigger] current@[i] < n,
            current@.no_duplicates(),
            levels@.len() == 0 ==> ascending(current@),
            levels@.len() > 0 ==> ordered_after(rel, levels@.last()@, current@),
            are_levels_prefix(rel, n, levels@.map_values(|l: Vec<usize>| l@)),
        decreases count_false(done@),
    {
        let ghost k = levels@.len() as nat;
        let ghost done0 = done@;
        let ghost cur = current@;
        let ghost old_levels = levels@.map_values(|l: Vec<usize>| l@);
        let mut next: Vec<usize> = Vec::new();
        let mut added = falses(n);
        let mut p: usize = 0;
        while p < current.len()
            invariant
                n == preds@.len(),
                    forall|w: usize, j: int|
                    w < preds@.len() && 0 <= j < preds@[w as int]@.len() ==> #[trigger] preds@[w as int]@[j] < preds@.len(),
                forall|u: usize, w: usize|
                    u < preds@.len() && w < preds@.len() ==> (#[trigger] rel(u, w)
                        <==> preds@[w as int]@.contains(u)),
                current@ == cur,
                forall|x: usize| x < n ==> (#[trigger] cur.contains(x) <==> in_level(rel, n, x, k)),
                forall|i: int| 0 <= i < cur.len() ==> #[trigger] cur[i] < n,
                cur.no_duplicates(),
                p <= cur.len(),
                done@.len() == n,
                forall|x: usize| x < n ==> (#[trigger] done@[x as int] <==> pdone(rel, n, k, cur, p as int, x)),
                count_false(done@) + p == count_false(done0),
                added@.len() == n,
                forall|x: usize| x < n ==> (#[trigger] added@[x as int] <==> next@.contains(x)),
                forall|x: usize| x < n ==> (#[trigger] next@.contains(x) <==> ready(rel, n, k, cur, p as int, x)),
                forall|i: int| 0 <= i < next@.len() ==> #[trigger] next@[i] < n,
                sorted_after(rel, cur, next@),
                forall|i: int| 0 <= i < next@.len() ==> last_pred_pos(rel, cur, #[trigger] next@[i]) < p,
            decreases cur.len() - p,
        {
            let u = current[p];
            proof {
                assert(cur.contains(u));
                assert(!settled(rel, n, u, k));
                assert(!cur.subrange(0, p as int).contains(u)) by {
                    if cur.subrange(0, p as int).contains(u) {
                        let q = choose|q: int| 0 <= q < p && #[trigger] cur.subrange(0, p as int)[q] == u;
                        assert(cur[q] == cur[p as int]);
                    }
                }
                assert(!done@[u as int]);
                lemma_count_false_set(done@, u as int);
            }
            done.set(u, true);
            proof {
                lemma_pdone_step(rel, n, k, cur, p as int);
            }
            let mut v: usize = 0;
            while v < n
                invariant
                    n == preds@.len(),
                            forall|w: usize, j: int|
                        w < preds@.len() && 0 <= j < preds@[w as int]@.len() ==> #[trigger] preds@[w as int]@[j] < preds@.len(),
                    forall|a: usize, w: usize|
                        a < preds@.len() && w < preds@.len() ==> (#[trigger] rel(a, w)
                            <==> preds@[w as int]@.contains(a)),
                    current@ == cur,
                    forall|x: usize| x < n ==> (#[trigger] cur.contains(x) <==> in_level(rel, n, x, k)),
                    forall|i: int| 0 <= i < cur.len() ==> #[trigger] cur[i] < n,
                    cur.no_duplicates(),
                    p < cur.len(),
                    u == cur[p as int],
                    v <= n,
                    done@.len() == n,
                    forall|x: usize| x < n ==> (#[trigger] done@[x as int] <==> pdone(rel, n, k, cur, p + 1, x)),
                    added@.len() == n,
                    forall|x: usize| x < n ==> (#[trigger] added@[x as int] <==> next@.contains(x)),
                    forall|x: usize| x < n ==> (#[trigger] next@.contains(x) <==> (
                        (x < v && ready(rel, n, k, cur, p + 1, x)) || (x >= v && ready(rel, n, k, cur, p as int, x)))),
                    forall|i: int| 0 <= i < next@.len() ==> #[trigger] next@[i] < n,
                    sorted_after(rel, cur, next@),
                    forall|i: int| 0 <= i < next@.len() ==> {
                        let a = last_pred_pos(rel, cur, #[trigger] next@[i]);
                        a < p || (a == p && next@[i] < v)
                    },
                decreases n - v,
            {
                proof {
                    lemma_ready_step(rel, n, k, cur, p as int, v);
                }
                let ghost before = next@;
                if !done[v] && !added[v] && contains_index(&preds[v], u) && all_marked(&preds[v], &done) {
                    proof {
                        assert forall|a: usize| a < n && #[trigger] rel(a, v) implies pdone(rel, n, k, cur, p + 1, a) by {
                            assert(preds@[v as int]@.contains(a));
                            let j = choose|j: int| 0 <= j < preds@[v as int]@.len() && #[trigger] preds@[v as int]@[j] == a;
                            assert(done@[preds@[v as int]@[j] as int]);
                        }
                        assert(rel(u, v));
                        assert(ready(rel, n, k, cur, p + 1, v));
                        lemma_pos_of_ready(rel, n, k, cur, p as int, v);
                    }
                    next.push(v);
                    added.set(v, true);
                    proof {
                        assert forall|x: usize| x < n implies (#[trigger] added@[x as int] <==> next@.contains(x)) by {
                            lemma_push_contains(before, v, x);
                        }
                        assert forall|x: usize| x < n implies (#[trigger] next@.contains(x) <==> (
                            (x < v + 1 && ready(rel, n, k, cur, p + 1, x)) || (x >= v + 1 && ready(rel, n, k, cur, p as int, x)))) by {
                            lemma_push_contains(before, v, x);
                        }
                        assert forall|i: int, j: int| 0 <= i < j < next@.len() implies
                            #[trigger] lex_before(rel, cur, next@[i], next@[j]) by {
                            if j == next@.len() - 1 {
                                assert(before[i] == next@[i]);
                            } else {
                                assert(before[i] == next@[i] && before[j] == next@[j]);
                            }
                        }
                    }
                } else {
                    proof {
                        if !done@[v as int] && !added@[v as int] && preds@[v as int]@.contains(u) {
                            let j = choose|j: int| 0 <= j < preds@[v as int]@.len() && !done@[#[trigger] preds@[v as int]@[j] as int];
                            let a = preds@[v as int]@[j];
                            assert(preds@[v as int]@.contains(a));
                            assert(rel(a, v));
                            assert(!pdone(rel, n, k, cur, p + 1, a));
                        }
                        if !done@[v as int] && !added@[v as int] && !preds@[v as int]@.contains(u) {
                            assert(!rel(u, v));
                        }
                        assert(next@.contains(v) <==> ready(rel, n, k, cur, p + 1, v));
                    }
                }
                v += 1;
            }
            p += 1;
        }
        proof {
            assert forall|x: usize| x < n implies (#[trigger] done@[x as int] <==> settled(rel, n, x, k + 1)) by {
                lemma_pdone_full(rel, n, k, cur, x);
            }
            assert forall|x: usize| x < n implies (#[trigger] next@.contains(x) <==> in_level(rel, n, x, k + 1)) by {
                lemma_ready_full(rel, n, k, cur, x);
            }
            assert(next@.no_duplicates()) by {
                assert forall|i: int, j: int| 0 <= i < next@.len() && 0 <= j < next@.len() && i != j
                    implies next@[i] != next@[j] by {
                    if i < j {
                        assert(lex_before(rel, cur, next@[i], next@[j]));
                    } else {
                        assert(lex_before(rel, cur, next@[j], next@[i]));
                    }
                }
            }
            if cur.len() == 0 {
            }
        }
        levels.push(current);
        proof {
            let nl = levels@.map_values(|l: Vec<usize>| l@);
            assert(nl =~= old_levels.push(cur));
            assert(cur.len() > 0);
        }
        current = next;
    }
    proof {
        let kk = levels@.len() as nat;
        assert forall|x: usize| x < n && #[trigger] settled(rel, n, x, kk + 1) implies settled(rel, n, x, kk) by {
            if !settled(rel, n, x, kk) {
                assert(in_level(rel, n, x, kk));
                assert(current@.contains(x));
            }
        }
        assert forall|x: usize| x < n implies (#[trigger] done@[x as int] <==> resolvable(rel, n, x)) by {
            if resolvable(rel, n, x) {
                let m = choose|m: nat| #[trigger] settled(rel, n, x, m);
                if m <= kk {
                    lemma_settled_monotone_to(rel, n, x, m, kk);
                } else {
                    lemma_settled_stable(rel, n, kk, x, m);
                }
            }
            if done@[x as int] {
                assert(settled(rel, n, x, kk));
            }
        }
        let gl = levels@.map_values(|l: Vec<usize>| l@);
        assert(gl.len() == kk);
        assert forall|x: usize| x < n implies (resolvable(rel, n, x) <==> settled(rel, n, x, gl.len())) by {
            assert(done@[x as int] <==> resolvable(rel, n, x));
        }
        assert(are_levels_prefix(rel, n, gl));
        assert(gl == nested(levels@));
        lemma_are_levels_is_levels_of(rel, n, gl);
    }
    (levels, done)
}

/// `x` is settled within `k` rounds or among the first `p` nodes of level `k`.
pub open spec fn pdone(rel: spec_fn(usize, usize) -> bool, n: usize, k: nat, cur: Seq<usize>, p: int, x: usize) -> bool {
    settled(rel, n, x, k) || cur.subrange(0, p).contains(x)
}

/// `x` becomes ready for level `k + 1` once the first `p` nodes of level `k`
/// are done: it is not done itself, all its predecessors are done, and one
/// of them is among those `p` nodes.
pub open spec fn ready(rel: spec_fn(usize, usize) -> bool, n: usize, k: nat, cur: Seq<usize>, p: int, x: usize) -> bool {
    &&& !pdone(rel, n, k, cur, p, x)
    &&& forall|a: usize| a < n && #[trigger] rel(a, x) ==> pdone(rel, n, k, cur, p, a)
    &&& exists|q: int| 0 <= q < p && #[trigger] rel(cur[q], x)
}

/// `a` precedes `b` in the order of level `k + 1`.
pub open spec fn lex_before(rel: spec_fn(usize, usize) -> bool, cur: Seq<usize>, a: usize, b: usize) -> bool {
    let pa = last_pred_pos(rel, cur, a);
    let pb = last_pred_pos(rel, cur, b);
    pa < pb || (pa == pb && a < b)
}

/// `s` is strictly ordered by [`lex_before`].
pub open spec fn sorted_after(rel: spec_fn(usize, usize) -> bool, cur: Seq<usize>, s: Seq<usize>) -> bool {
    forall|i: int, j: int| 0 <= i < j < s.len() ==> #[trigger] lex_before(rel, cur, s[i], s[j])
}

/// Marking `cur[p]` done extends the done set by exactly that node.
proof fn lemma_pdone_step(rel: spec_fn(usize, usize) -> bool, n: usize, k: nat, cur: Seq<usize>, p: int)
    requires
        0 <= p < cur.len(),
    ensures
        forall|x: usize| #![trigger pdone(rel, n, k, cur, p + 1, x)]
            pdone(rel, n, k, cur, p + 1, x) <==> (pdone(rel, n, k, cur, p, x) || x == cur[p]),
{
    let u = cur[p];
    assert forall|x: usize| #![trigger pdone(rel, n, k, cur, p + 1, x)]
        pdone(rel, n, k, cur, p + 1, x) <==> (pdone(rel, n, k, cur, p, x) || x == cur[p]) by {
        if cur.subrange(0, p + 1).contains(x) && x != u {
            let i = choose|i: int| 0 <= i < p + 1 && #[trigger] cur.subrange(0, p + 1)[i] == x;
            assert(i < p);
            assert(cur.subrange(0, p)[i] == x);
        }
        if cur.subrange(0, p).contains(x) {
            let i = choose|i: int| 0 <= i < p && #[trigger] cur.subrange(0, p)[i] == x;
            assert(cur.subrange(0, p + 1)[i] == x);
        }
        if x == u {
            assert(cur.subrange(0, p + 1)[p] == u);
        }
    }
}

pub proof fn lemma_push_contains(s: Seq<usize>, v: usize, x: usize)
    ensures
        s.push(v).contains(x) <==> (s.contains(x) || x == v),
{
    let t = s.push(v);
    if s.contains(x) {
        let i = choose|i: int| 0 <= i < s.len() && s[i] == x;
        assert(t[i] == x);
    }
    if x == v {
        assert(t[s.len() as int] == v);
    }
    if t.contains(x) && x != v {
        let i = choose|i: int| 0 <= i < t.len() && t[i] == x;
        assert(s[i] == x);
    }
}

/// The facts about node `v` that decide whether it enters level `k + 1`
/// while node `cur[p]` is processed.
proof fn lemma_ready_step(rel: spec_fn(usize, usize) -> bool, n: usize, k: nat, cur: Seq<usize>, p: int, v: usize)
    requires
        0 <= p < cur.len(),
        0 <= v < n,
        forall|x: usize| x < n ==> (#[trigger] cur.contains(x) <==> in_level(rel, n, x, k)),
        forall|i: int| 0 <= i < cur.len() ==> #[trigger] cur[i] < n,
        cur.no_duplicates(),
    ensures
        ready(rel, n, k, cur, p, v) ==> ready(rel, n, k, cur, p + 1, v),
        ready(rel, n, k, cur, p, v) ==> v != cur[p],
        v == cur[p] ==> !ready(rel, n, k, cur, p + 1, v) && !ready(rel, n, k, cur, p, v),
        !rel(cur[p], v) && v != cur[p] ==> (ready(rel, n, k, cur, p, v) == ready(rel, n, k, cur, p + 1, v)),
        forall|x: usize| #![trigger pdone(rel, n, k, cur, p + 1, x)]
            pdone(rel, n, k, cur, p + 1, x) <==> (pdone(rel, n, k, cur, p, x) || x == cur[p]),
{
    let u = cur[p];
    lemma_pdone_step(rel, n, k, cur, p);
    assert(cur.contains(u));
    assert(in_level(rel, n, u, k));
    if ready(rel, n, k, cur, p, v) {
        let q = choose|q: int| 0 <= q < p && #[trigger] rel(cur[q], v);
        assert(cur.contains(cur[q]));
        assert(in_level(rel, n, cur[q], k));
        if v == u {
            assert(settled(rel, n, u, k + 1));
            assert(settled(rel, n, cur[q], k));
        }
        assert(rel(cur[q], v));
    }
    if v == u {
        assert(pdone(rel, n, k, cur, p + 1, v));
        if ready(rel, n, k, cur, p, v) {
            let q = choose|q: int| 0 <= q < p && #[trigger] rel(cur[q], v);
            assert(cur.contains(cur[q]));
            assert(in_level(rel, n, cur[q], k));
            assert(settled(rel, n, cur[q], k));
        }
    }
    if !rel(u, v) && v != u {
        if ready(rel, n, k, cur, p + 1, v) {
            let q = choose|q: int| 0 <= q < p + 1 && #[trigger] rel(cur[q], v);
            assert(q != p);
            assert forall|a: usize| a < n && #[trigger] rel(a, v) implies pdone(rel, n, k, cur, p, a) by {
                assert(pdone(rel, n, k, cur, p + 1, a));
            }
        }
        if ready(rel, n, k, cur, p, v) {
            let q = choose|q: int| 0 <= q < p && #[trigger] rel(cur[q], v);
            assert(rel(cur[q], v));
        }
    }
}

/// A node that is ready once `cur[p]` is done has `p` as the position of its
/// last predecessor in `cur`.
proof fn lemma_pos_of_ready(rel: spec_fn(usize, usize) -> bool, n: usize, k: nat, cur: Seq<usize>, p: int, v: usize)
    requires
        0 <= p < cur.len(),
        0 <= v < n,
        forall|x: usize| x < n ==> (#[trigger] cur.contains(x) <==> in_level(rel, n, x, k)),
        forall|i: int| 0 <= i < cur.len() ==> #[trigger] cur[i] < n,
        cur.no_duplicates(),
        rel(cur[p], v),
        forall|a: usize| a < n && #[trigger] rel(a, v) ==> pdone(rel, n, k, cur, p + 1, a),
    ensures
        last_pred_pos(rel, cur, v) == p,
{
    assert forall|q: int| p < q < cur.len() implies !rel(#[trigger] cur[q], v) by {
        let a = cur[q];
        assert(cur.contains(a));
        assert(in_level(rel, n, a, k));
        if rel(a, v) {
            assert(pdone(rel, n, k, cur, p + 1, a));
            assert(cur.subrange(0, p + 1).contains(a));
            let i = choose|i: int| 0 <= i < p + 1 && #[trigger] cur.subrange(0, p + 1)[i] == a;
            assert(cur[i] == cur[q]);
        }
    }
    lemma_last_pred_pos_at(rel, cur, v, p);
}

/// With the whole of level `k` done, "done" means settled within `k + 1`.
proof fn lemma_pdone_full(rel: spec_fn(usize, usize) -> bool, n: usize, k: nat, cur: Seq<usize>, x: usize)
    requires
        0 <= x < n,
        forall|y: usize| y < n ==> (#[trigger] cur.contains(y) <==> in_level(rel, n, y, k)),
        forall|i: int| 0 <= i < cur.len() ==> #[trigger] cur[i] < n,
    ensures
        pdone(rel, n, k, cur, cur.len() as int, x) <==> settled(rel, n, x, k + 1),
{
    assert(cur.subrange(0, cur.len() as int) =~= cur);
    if settled(rel, n, x, k) {
        lemma_settled_monotone(rel, n, x, k);
    }
    if settled(rel, n, x, k + 1) && !settled(rel, n, x, k) {
        assert(in_level(rel, n, x, k));
    }
    if cur.contains(x) {
        assert(in_level(rel, n, x, k));
    }
}

/// With the whole of level `k` done, "ready" means belonging to level `k + 1`.
proof fn lemma_ready_full(rel: spec_fn(usize, usize) -> bool, n: usize, k: nat, cur: Seq<usize>, x: usize)
    requires
        0 <= x < n,
        forall|y: usize| y < n ==> (#[trigger] cur.contains(y) <==> in_level(rel, n, y, k)),
        forall|i: int| 0 <= i < cur.len() ==> #[trigger] cur[i] < n,
    ensures
        ready(rel, n, k, cur, cur.len() as int, x) <==> in_level(rel, n, x, k + 1),
{
    let m = cur.len() as int;
    assert forall|y: usize| y < n implies (pdone(rel, n, k, cur, m, y) <==> settled(rel, n, y, k + 1)) by {
        lemma_pdone_full(rel, n, k, cur, y);
    }
    if in_level(rel, n, x, k + 1) {
        assert(!settled(rel, n, x, k + 1));
        let a = choose|a: usize| a < n && #[trigger] rel(a, x) && !settled(rel, n, a, k);
        assert(settled(rel, n, a, k + 1));
        assert(in_level(rel, n, a, k));
        assert(cur.contains(a));
        let q = choose|q: int| 0 <= q < cur.len() && #[trigger] cur[q] == a;
        assert(rel(cur[q], x));
    }
    if ready(rel, n, k, cur, m, x) {
        assert(settled(rel, n, x, k + 2));
    }
}

/// The level conditions that hold of a finished prefix of the layering.
pub open spec fn are_levels_prefix(rel: spec_fn(usize, usize) -> bool, n: usize, levels: Seq<Seq<usize>>) -> bool {
    &&& forall|k: int|
        0 <= k < levels.len() ==> #[trigger] levels[k].len() > 0 && levels[k].no_duplicates()
    &&& forall|k: int, v: usize|
        0 <= k < levels.len() && v < n ==> (#[trigger] levels[k].contains(v)
            <==> in_level(rel, n, v, k as nat))
    &&& forall|k: int, i: int|
        0 <= k < levels.len() && 0 <= i < levels[k].len() ==> #[trigger] levels[k][i] < n
    &&& levels.len() > 0 ==> ascending(levels[0])
    &&& forall|k: int|
        0 <= k && k + 1 < levels.len() ==> #[trigger] ordered_after(rel, levels[k], levels[k + 1])
}

/// The levels of the graph `rel` on `0..n`: the one sequence that meets
/// [`are_levels`] (see [`lemma_levels_unique`]).
pub open spec fn levels_of(rel: spec_fn(usize, usize) -> bool, n: usize) -> Seq<Seq<usize>> {
    choose|lv: Seq<Seq<usize>>| are_levels(rel, n, lv)
}

/// Two sequences strictly ordered by the same asymmetric relation and
/// holding the same elements are equal.
pub proof fn lemma_sorted_unique(s: Seq<usize>, t: Seq<usize>, lt: spec_fn(usize, usize) -> bool)
    requires
        forall|i: int, j: int| #![trigger s[i], s[j]] 0 <= i < j < s.len() ==> lt(s[i], s[j]),
        forall|i: int, j: int| #![trigger t[i], t[j]] 0 <= i < j < t.len() ==> lt(t[i], t[j]),
        forall|a: usize, b: usize| #[trigger] lt(a, b) ==> !lt(b, a),
        forall|x: usize| s.contains(x) <==> t.contains(x),
    ensures
        s == t,
    decreases s.len(),
{
    if s.len() == 0 {
        if t.len() > 0 {
            assert(t.contains(t[0]));
        }
        assert(s =~= t);
    } else if t.len() == 0 {
        assert(s.contains(s[0]));
    } else {
        assert(s.contains(s[0]));
        assert(t.contains(t[0]));
        let i = choose|i: int| 0 <= i < s.len() && s[i] == t[0];
        let j = choose|j: int| 0 <= j < t.len() && t[j] == s[0];
        if s[0] != t[0] {
            assert(lt(s[0], s[i]));
            assert(lt(t[0], t[j]));
        }
        let s1 = s.drop_first();
        let t1 = t.drop_first();
        assert forall|x: usize| s1.contains(x) <==> t1.contains(x) by {
            if s1.contains(x) {
                let a = choose|a: int| 0 <= a < s1.len() && s1[a] == x;
                assert(s[a + 1] == x);
                assert(lt(s[0], s[a + 1]));
                assert(t.contains(x));
                let b = choose|b: int| 0 <= b < t.len() && t[b] == x;
                assert(b != 0);
                assert(t1[b - 1] == x);
            }
            if t1.contains(x) {
                let a = choose|a: int| 0 <= a < t1.len() && t1[a] == x;
                assert(t[a + 1] == x);
                assert(lt(t[0], t[a + 1]));
                assert(s.contains(x));
                let b = choose|b: int| 0 <= b < s.len() && s[b] == x;
                assert(b != 0);
                assert(s1[b - 1] == x);
            }
        }
        assert forall|i: int, j: int| #![trigger s1[i], s1[j]] 0 <= i < j < s1.len() implies lt(s1[i], s1[j]) by {
            assert(lt(s[i + 1], s[j + 1]));
        }
        assert forall|i: int, j: int| #![trigger t1[i], t1[j]] 0 <= i < j < t1.len() implies lt(t1[i], t1[j]) by {
            assert(lt(t[i + 1], t[j + 1]));
        }
        lemma_sorted_unique(s1, t1, lt);
        assert(s =~= seq![s[0]] + s1);
        assert(t =~= seq![t[0]] + t1);
    }
}

/// Two layerings that both meet [`are_levels`] agree on their first `k` levels.
proof fn lemma_levels_agree(rel: spec_fn(usize, usize) -> bool, n: usize, a: Seq<Seq<usize>>, b: Seq<Seq<usize>>, k: int)
    requires
        are_levels(rel, n, a),
        are_levels(rel, n, b),
        a.len() == b.len(),
        0 <= k <= a.len(),
    ensures
        forall|i: int| 0 <= i < k ==> a[i] == b[i],
    decreases k,
{
    if k > 0 {
        lemma_levels_agree(rel, n, a, b, k - 1);
        let i = k - 1;
        assert forall|x: usize| a[i].contains(x) <==> b[i].contains(x) by {
            if x < n {
                assert(a[i].contains(x) <==> in_level(rel, n, x, i as nat));
                assert(b[i].contains(x) <==> in_level(rel, n, x, i as nat));
            } else {
                if a[i].contains(x) {
                    let j = choose|j: int| 0 <= j < a[i].len() && a[i][j] == x;
                    assert(a[i][j] < n);
                }
                if b[i].contains(x) {
                    let j = choose|j: int| 0 <= j < b[i].len() && b[i][j] == x;
                    assert(b[i][j] < n);
                }
            }
        }
        if i == 0 {
            let lt = |x: usize, y: usize| x < y;
            assert(ascending(a[0]) && ascending(b[0]));
            lemma_sorted_unique(a[0], b[0], lt);
        } else {
            let prev = a[i - 1];
            assert(prev == b[i - 1]);
            let lt = |x: usize, y: usize| lex_before(rel, prev, x, y);
            let j = i - 1;
            assert(ordered_after(rel, a[j], a[j + 1]));
            assert(ordered_after(rel, b[j], b[j + 1]));
            lemma_sorted_unique(a[i], b[i], lt);
        }
    }
}

/// The layering of a graph is unique: two sequences that both meet
/// [`are_levels`] for the same graph are equal.
pub proof fn lemma_levels_unique(rel: spec_fn(usize, usize) -> bool, n: usize, a: Seq<Seq<usize>>, b: Seq<Seq<usize>>)
    requires
        are_levels(rel, n, a),
        are_levels(rel, n, b),
    ensures
        a == b,
{
    lemma_levels_no_shorter(rel, n, a, b);
    lemma_levels_no_shorter(rel, n, b, a);
    lemma_levels_agree(rel, n, a, b, a.len() as int);
    assert(a =~= b);
}

/// A layering has at least as many levels as any other of the same graph.
proof fn lemma_levels_no_shorter(rel: spec_fn(usize, usize) -> bool, n: usize, a: Seq<Seq<usize>>, b: Seq<Seq<usize>>)
    requires
        are_levels(rel, n, a),
        are_levels(rel, n, b),
    ensures
        b.len() <= a.len(),
{
    if a.len() < b.len() {
        let l = a.len() as int;
        assert(b[l].len() > 0);
        let x = b[l][0];
        assert(x < n);
        assert(b[l].contains(x));
        assert(in_level(rel, n, x, l as nat));
        assert(settled(rel, n, x, (l + 1) as nat));
        assert(resolvable(rel, n, x));
        assert(settled(rel, n, x, a.len()));
    }
}

/// The levels [`topological_layers`] computes are [`levels_of`] the graph.
pub proof fn lemma_are_levels_is_levels_of(rel: spec_fn(usize, usize) -> bool, n: usize, lv: Seq<Seq<usize>>)
    requires
        are_levels(rel, n, lv),
    ensures
        levels_of(rel, n) == lv,
{
    let c = levels_of(rel, n);
    assert(are_levels(rel, n, c));
    lemma_levels_unique(rel, n, c, lv);
}

/// A node settled within `k` rounds but not within none belongs to some
/// level below `k`.
proof fn lemma_has_level(rel: spec_fn(usize, usize) -> bool, n: usize, x: usize, k: nat)
    requires
        x < n,
        settled(rel, n, x, k),
    ensures
        exists|j: nat| j < k && #[trigger] in_level(rel, n, x, j),
    decreases k,
{
    let j = (k - 1) as nat;
    if settled(rel, n, x, j) {
        lemma_has_level(rel, n, x, j);
        let i = choose|i: nat| i < j && #[trigger] in_level(rel, n, x, i);
        assert(in_level(rel, n, x, i));
    } else {
        assert(in_level(rel, n, x, j));
    }
}

/// `v` lies in one of `parts`.
pub open spec fn in_some_part(parts: Seq<Seq<usize>>, v: usize) -> bool {
    exists|k: int| 0 <= k < parts.len() && #[trigger] parts[k].contains(v)
}

/// In a graph without cycles the levels partition the nodes: every node
/// lies in some level, and in no more than one.
pub proof fn lemma_levels_partition(rel: spec_fn(usize, usize) -> bool, n: usize, lv: Seq<Seq<usize>>)
    requires
        are_levels(rel, n, lv),
        forall|v: usize| v < n ==> #[trigger] resolvable(rel, n, v),
    ensures
        forall|v: usize| v < n ==> #[trigger] in_some_part(lv, v),
        forall|a: int, b: int, v: usize|
            #![trigger lv[a].contains(v), lv[b].contains(v)]
            0 <= a < lv.len() && 0 <= b < lv.len() && lv[a].contains(v) && lv[b].contains(v) ==> a == b,
{
    assert forall|v: usize| v < n implies #[trigger] in_some_part(lv, v) by {
        assert(resolvable(rel, n, v));
        assert(settled(rel, n, v, lv.len()));
        lemma_has_level(rel, n, v, lv.len());
        let j = choose|j: nat| j < lv.len() && #[trigger] in_level(rel, n, v, j);
        assert(lv[j as int].contains(v));
    }
    assert forall|a: int, b: int, v: usize|
        0 <= a < lv.len() && 0 <= b < lv.len() && lv[a].contains(v) && lv[b].contains(v) implies a == b by {
        let i = choose|i: int| 0 <= i < lv[a].len() && lv[a][i] == v;
        assert(lv[a][i] < n);
        assert(in_level(rel, n, v, a as nat));
        assert(in_level(rel, n, v, b as nat));
        if a < b {
            lemma_settled_monotone_to(rel, n, v, (a + 1) as nat, b as nat);
        }
        if b < a {
            lemma_settled_monotone_to(rel, n, v, (b + 1) as nat, a as nat);
        }
    }
}

/// Every dependency of a node lies in a strictly earlier level than the node.
pub proof fn lemma_dependency_in_earlier_level(
    rel: spec_fn(usize, usize) -> bool,
    n: usize,
    lv: Seq<Seq<usize>>,
    k: int,
    v: usize,
    u: usize,
)
    requires
        are_levels(rel, n, lv),
        0 <= k < lv.len(),
        lv[k].contains(v),
        u < n,
        rel(u, v),
    ensures
        exists|j: int| 0 <= j < k && #[trigger] lv[j].contains(u),
{
    let i = choose|i: int| 0 <= i < lv[k].len() && lv[k][i] == v;
    assert(lv[k][i] < n);
    assert(in_level(rel, n, v, k as nat));
    assert(settled(rel, n, v, (k + 1) as nat));
    assert(settled(rel, n, u, k as nat));
    lemma_has_level(rel, n, u, k as nat);
    let j = choose|j: nat| j < k && #[trigger] in_level(rel, n, u, j);
    assert(lv[j as int].contains(u));
}

} // verus!
