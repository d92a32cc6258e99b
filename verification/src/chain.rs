//! The longest chain of transitions that can fire within one tick: a depth
//! first search over the step graph that also reports whether the graph
//! has a cycle.
use vstd::prelude::*;

verus! {

// ---------------------------------------------------------------------------
// The graph
// ---------------------------------------------------------------------------

/// The graph of `outgoing.len()` nodes whose node `v` has, in order, the
/// edges `outgoing[v]`, each an index into `edges` (a `(from, to)` pair).
pub open spec fn graph_ok(outgoing: Seq<Vec<usize>>, edges: Seq<(usize, usize)>) -> bool {
    forall|v: int, k: int|
        0 <= v < outgoing.len() && 0 <= k < outgoing[v]@.len() ==> {
            &&& (#[trigger] outgoing[v]@[k]) < edges.len()
            &&& edges[outgoing[v]@[k] as int].1 < outgoing.len()
        }
}

/// The node that the `k`-th edge of node `v` leads to.
pub open spec fn succ(outgoing: Seq<Vec<usize>>, edges: Seq<(usize, usize)>, v: int, k: int) -> int {
    edges[outgoing[v]@[k] as int].1 as int
}

/// Whether some edge of `a` leads to `b`.
pub open spec fn has_edge(outgoing: Seq<Vec<usize>>, edges: Seq<(usize, usize)>, a: int, b: int) -> bool {
    exists|k: int| 0 <= k < outgoing[a]@.len() && #[trigger] succ(outgoing, edges, a, k) == b
}

/// A walk: nodes of the graph, each joined to the next by an edge.
pub open spec fn is_walk(outgoing: Seq<Vec<usize>>, edges: Seq<(usize, usize)>, p: Seq<int>) -> bool {
    &&& p.len() >= 1
    &&& forall|i: int| 0 <= i < p.len() ==> 0 <= #[trigger] p[i] < outgoing.len()
    &&& forall|i: int| 0 <= i < p.len() - 1 ==> has_edge(outgoing, edges, #[trigger] p[i], p[i + 1])
}

/// Whether the graph has a cycle: a walk of at least one edge that ends
/// where it starts.
pub open spec fn has_cycle(outgoing: Seq<Vec<usize>>, edges: Seq<(usize, usize)>) -> bool {
    exists|p: Seq<int>| is_walk(outgoing, edges, p) && p.len() >= 2 && #[trigger] p[0] == p.last()
}

// ---------------------------------------------------------------------------
// The search state
// ---------------------------------------------------------------------------

/// `1 + memo[target]` over the edges of `v`, largest first found.
pub open spec fn best_below(outgoing: Seq<Vec<usize>>, edges: Seq<(usize, usize)>, memo: Seq<usize>, v: int, m: int) -> int
    decreases m,
{
    if m <= 0 {
        0
    } else {
        let prev = best_below(outgoing, edges, memo, v, m - 1);
        let c = 1 + memo[succ(outgoing, edges, v, m - 1)];
        if c > prev {
            c
        } else {
            prev
        }
    }
}

pub open spec fn best(outgoing: Seq<Vec<usize>>, edges: Seq<(usize, usize)>, memo: Seq<usize>, v: int) -> int {
    best_below(outgoing, edges, memo, v, outgoing[v]@.len() as int)
}

pub open spec fn count_true(s: Seq<bool>) -> nat
    decreases s.len(),
{
    if s.len() == 0 {
        0
    } else {
        count_true(s.drop_last()) + if s.last() {
            1nat
        } else {
            0nat
        }
    }
}

/// The nodes not yet reached by the search.
pub open spec fn count_white(visiting: Seq<bool>, visited: Seq<bool>) -> nat
    decreases visiting.len(),
{
    if visiting.len() == 0 || visited.len() == 0 {
        0
    } else {
        count_white(visiting.drop_last(), visited.drop_last()) + if !visiting.last()
            && !visited.last() {
            1nat
        } else {
            0nat
        }
    }
}

proof fn lemma_count_true_set(s: Seq<bool>, i: int)
    requires
        0 <= i < s.len(),
        !s[i],
    ensures
        count_true(s.update(i, true)) == count_true(s) + 1,
    decreases s.len(),
{
    if i == s.len() - 1 {
        assert(s.update(i, true).drop_last() =~= s.drop_last());
    } else {
        assert(s.update(i, true).drop_last() =~= s.drop_last().update(i, true));
        lemma_count_true_set(s.drop_last(), i);
    }
}

proof fn lemma_count_true_le(s: Seq<bool>)
    ensures
        count_true(s) <= s.len(),
    decreases s.len(),
{
    if s.len() > 0 {
        lemma_count_true_le(s.drop_last());
    }
}

/// Marking a white node grey removes it from the white ones.
proof fn lemma_white_grey(a: Seq<bool>, b: Seq<bool>, i: int)
    requires
        a.len() == b.len(),
        0 <= i < a.len(),
        !a[i],
        !b[i],
    ensures
        count_white(a.update(i, true), b) + 1 == count_white(a, b),
    decreases a.len(),
{
    if i == a.len() - 1 {
        assert(a.update(i, true).drop_last() =~= a.drop_last());
    } else {
        assert(a.update(i, true).drop_last() =~= a.drop_last().update(i, true));
        lemma_white_grey(a.drop_last(), b.drop_last(), i);
    }
}

/// White nodes only get fewer while no node turns white again.
proof fn lemma_white_mono(a: Seq<bool>, b: Seq<bool>, a2: Seq<bool>, b2: Seq<bool>)
    requires
        a.len() == b.len() == a2.len() == b2.len(),
        forall|i: int| 0 <= i < a.len() && (a[i] || b[i]) ==> (a2[i] || b2[i]),
    ensures
        count_white(a2, b2) <= count_white(a, b),
    decreases a.len(),
{
    if a.len() > 0 {
        lemma_white_mono(a.drop_last(), b.drop_last(), a2.drop_last(), b2.drop_last());
    }
}

/// What holds of the search between steps: the grey nodes are exactly the
/// walk `stack` being searched; a reported cycle exists; and, as long as
/// none was found, every finished node's successors are finished and its
/// memo is `best` over them, below the number of finished nodes.
pub open spec fn search_ok(
    outgoing: Seq<Vec<usize>>,
    edges: Seq<(usize, usize)>,
    visiting: Seq<bool>,
    visited: Seq<bool>,
    memo: Seq<usize>,
    found: bool,
    stack: Seq<int>,
) -> bool {
    let n = outgoing.len();
    &&& graph_ok(outgoing, edges)
    &&& visiting.len() == n
    &&& visited.len() == n
    &&& memo.len() == n
    &&& forall|v: int| 0 <= v < n ==> (#[trigger] visiting[v] <==> stack.contains(v))
    &&& forall|i: int| 0 <= i < stack.len() ==> 0 <= #[trigger] stack[i] < n
    &&& forall|i: int| 0 <= i < stack.len() - 1 ==> has_edge(outgoing, edges, #[trigger] stack[i], stack[i + 1])
    &&& forall|v: int| 0 <= v < n ==> !(#[trigger] visiting[v] && visited[v])
    &&& (found ==> has_cycle(outgoing, edges))
    &&& (!found ==> forall|v: int|
        0 <= v < n && #[trigger] visited[v] ==> {
            &&& (forall|k: int| 0 <= k < outgoing[v]@.len() ==> visited[#[trigger] succ(outgoing, edges, v, k)])
            &&& memo[v] as int == best(outgoing, edges, memo, v)
            &&& memo[v] < count_true(visited)
        })
}

// ---------------------------------------------------------------------------
// Facts about `best`
// ---------------------------------------------------------------------------

proof fn lemma_best_nonneg(outgoing: Seq<Vec<usize>>, edges: Seq<(usize, usize)>, memo: Seq<usize>, v: int, m: int)
    ensures
        best_below(outgoing, edges, memo, v, m) >= 0,
    decreases m,
{
    if m > 0 {
        lemma_best_nonneg(outgoing, edges, memo, v, m - 1);
    }
}

proof fn lemma_best_ge(outgoing: Seq<Vec<usize>>, edges: Seq<(usize, usize)>, memo: Seq<usize>, v: int, m: int, q: int)
    requires
        0 <= q < m,
    ensures
        best_below(outgoing, edges, memo, v, m) >= 1 + memo[succ(outgoing, edges, v, q)],
    decreases m,
{
    if q < m - 1 {
        lemma_best_ge(outgoing, edges, memo, v, m - 1, q);
    }
}

proof fn lemma_best_attained(outgoing: Seq<Vec<usize>>, edges: Seq<(usize, usize)>, memo: Seq<usize>, v: int, m: int)
    requires
        best_below(outgoing, edges, memo, v, m) > 0,
    ensures
        exists|q: int| 0 <= q < m && best_below(outgoing, edges, memo, v, m) == 1 + memo[#[trigger] succ(outgoing, edges, v, q)],
    decreases m,
{
    if m > 0 {
        let prev = best_below(outgoing, edges, memo, v, m - 1);
        let c = 1 + memo[succ(outgoing, edges, v, m - 1)];
        if c > prev {
            assert(best_below(outgoing, edges, memo, v, m) == 1 + memo[succ(outgoing, edges, v, m - 1)]);
        } else {
            lemma_best_attained(outgoing, edges, memo, v, m - 1);
            let q = choose|q: int| 0 <= q < m - 1 && best_below(outgoing, edges, memo, v, m - 1) == 1 + memo[#[trigger] succ(outgoing, edges, v, q)];
            assert(best_below(outgoing, edges, memo, v, m) == 1 + memo[succ(outgoing, edges, v, q)]);
        }
    }
}

proof fn lemma_best_update(outgoing: Seq<Vec<usize>>, edges: Seq<(usize, usize)>, memo: Seq<usize>, v: int, m: int, i: int, val: usize)
    requires
        0 <= i < memo.len(),
        forall|q: int| 0 <= q < m ==> #[trigger] succ(outgoing, edges, v, q) != i,
        forall|q: int| 0 <= q < m ==> 0 <= #[trigger] succ(outgoing, edges, v, q) < memo.len(),
    ensures
        best_below(outgoing, edges, memo.update(i, val), v, m) == best_below(outgoing, edges, memo, v, m),
    decreases m,
{
    if m > 0 {
        lemma_best_update(outgoing, edges, memo, v, m - 1, i, val);
        assert(succ(outgoing, edges, v, m - 1) != i);
        assert(0 <= succ(outgoing, edges, v, m - 1) < memo.len());
    }
}

/// Updating the memo of an unfinished node keeps the search invariant of
/// the finished ones.
proof fn lemma_best_stable(
    outgoing: Seq<Vec<usize>>,
    edges: Seq<(usize, usize)>,
    visited: Seq<bool>,
    memo: Seq<usize>,
    i: int,
    val: usize,
)
    requires
        visited.len() == memo.len() == outgoing.len(),
        graph_ok(outgoing, edges),
        0 <= i < memo.len(),
        !visited[i],
        forall|v: int| 0 <= v < outgoing.len() && #[trigger] visited[v] ==> (forall|k: int| 0 <= k < outgoing[v]@.len() ==> visited[#[trigger] succ(outgoing, edges, v, k)]),
    ensures
        forall|v: int| 0 <= v < outgoing.len() && #[trigger] visited[v] ==> best(outgoing, edges, memo.update(i, val), v) == best(outgoing, edges, memo, v),
{
    assert forall|v: int| 0 <= v < outgoing.len() && #[trigger] visited[v] implies best(outgoing, edges, memo.update(i, val), v) == best(outgoing, edges, memo, v) by {
        assert forall|q: int| 0 <= q < outgoing[v]@.len() implies #[trigger] succ(outgoing, edges, v, q) != i by {
            assert(visited[succ(outgoing, edges, v, q)]);
        }
        assert forall|q: int| 0 <= q < outgoing[v]@.len() implies 0 <= #[trigger] succ(outgoing, edges, v, q) < memo.len() by {
            assert(outgoing[v]@[q] < edges.len());
        }
        lemma_best_update(outgoing, edges, memo, v, outgoing[v]@.len() as int, i, val);
    }
}

// ---------------------------------------------------------------------------
// The search
// ---------------------------------------------------------------------------

fn dfs(
    node: usize,
    outgoing: &[Vec<usize>],
    edges: &[(usize, usize)],
    visiting: &mut Vec<bool>,
    visited: &mut Vec<bool>,
    memo: &mut Vec<usize>,
    found: &mut bool,
    Ghost(stack): Ghost<Seq<int>>,
) -> (r: usize)
    requires
        search_ok(outgoing@, edges@, old(visiting)@, old(visited)@, old(memo)@, *old(found), stack),
        node < outgoing@.len(),
        stack.len() > 0 ==> has_edge(outgoing@, edges@, stack.last(), node as int),
    ensures
        search_ok(outgoing@, edges@, final(visiting)@, final(visited)@, final(memo)@, *final(found), stack),
        final(visiting)@ == old(visiting)@,
        final(visited)@.len() == old(visited)@.len(),
        forall|v: int| 0 <= v < old(visited)@.len() && #[trigger] old(visited)@[v] ==> final(visited)@[v] && final(memo)@[v] == old(memo)@[v],
        *old(found) ==> *final(found),
        !*final(found) ==> final(visited)@[node as int] && r == final(memo)@[node as int],
    decreases count_white(old(visiting)@, old(visited)@),
{
    let ghost n = outgoing@.len();
    if visiting[node] {
        proof {
            assert(stack.contains(node as int));
            let j = choose|j: int| 0 <= j < stack.len() && stack[j] == node as int;
            let p = stack.subrange(j, stack.len() as int).push(node as int);
            assert(p[0] == stack[j]);
            assert forall|i: int| 0 <= i < p.len() - 1 implies has_edge(outgoing@, edges@, #[trigger] p[i], p[i + 1]) by {
                if i < p.len() - 2 {
                    assert(p[i] == stack[j + i]);
                    assert(p[i + 1] == stack[j + i + 1]);
                } else {
                    assert(p[i] == stack.last());
                }
            }
            assert forall|i: int| 0 <= i < p.len() implies 0 <= #[trigger] p[i] < outgoing@.len() by {
                if i < p.len() - 1 {
                    assert(p[i] == stack[j + i]);
                }
            }
            assert(is_walk(outgoing@, edges@, p) && p.len() >= 2 && p[0] == p.last());
        }
        *found = true;
        return 0;
    }
    if visited[node] {
        return memo[node];
    }
    let ghost v0 = visiting@;
    let ghost d0 = visited@;
    let ghost m0 = memo@;
    let ghost f0 = *found;
    proof {
        lemma_white_grey(visiting@, visited@, node as int);
        assert(!stack.contains(node as int));
    }
    visiting.set(node, true);
    let ghost stack2 = stack.push(node as int);
    assert forall|v: int| 0 <= v < n implies (#[trigger] visiting@[v] <==> stack2.contains(v)) by {
        if v == node as int {
            assert(stack2[stack.len() as int] == v);
        } else if stack.contains(v) {
            let j = choose|j: int| 0 <= j < stack.len() && stack[j] == v;
            assert(stack2[j] == v);
        } else if stack2.contains(v) {
            let j = choose|j: int| 0 <= j < stack2.len() && stack2[j] == v;
            assert(stack[j] == v);
        }
    }
    assert forall|i: int| 0 <= i < stack2.len() - 1 implies has_edge(outgoing@, edges@, #[trigger] stack2[i], stack2[i + 1]) by {
        if i < stack.len() - 1 {
            assert(stack2[i] == stack[i]);
            assert(stack2[i + 1] == stack[i + 1]);
        } else {
            assert(stack2[i] == stack.last());
        }
    }
    let mut best_v: usize = 0;
    let mut k: usize = 0;
    let succs = &outgoing[node];
    while k < succs.len()
        invariant
            n == outgoing@.len(),
            node < n,
            v0.len() == n,
            d0.len() == n,
            v0 == old(visiting)@,
            d0 == old(visited)@,
            stack2 == stack.push(node as int),
            succs@ == outgoing@[node as int]@,
            k <= succs@.len(),
            search_ok(outgoing@, edges@, visiting@, visited@, memo@, *found, stack2),
            visiting@ == v0.update(node as int, true),
            !visited@[node as int],
            visited@.len() == n,
            forall|v: int| 0 <= v < n && #[trigger] d0[v] ==> visited@[v] && memo@[v] == m0[v],
            forall|v: int| 0 <= v < n && (v0[v] || d0[v]) ==> (#[trigger] visiting@[v] || visited@[v]),
            f0 ==> *found,
            !*found ==> forall|q: int| 0 <= q < k ==> visited@[#[trigger] succ(outgoing@, edges@, node as int, q)],
            !*found ==> best_v as int == best_below(outgoing@, edges@, memo@, node as int, k as int),
            !*found ==> best_v <= count_true(visited@),
            count_white(v0, d0) == count_white(v0.update(node as int, true), d0) + 1,
        decreases succs@.len() - k,
    {
        let eid = succs[k];
        let to = edges[eid].1;
        assert(to as int == succ(outgoing@, edges@, node as int, k as int));
        assert(stack2.last() == node as int);
        assert(has_edge(outgoing@, edges@, node as int, to as int)) by {
            assert(succ(outgoing@, edges@, node as int, k as int) == to as int);
        }
        let ghost before_visited = visited@;
        let ghost before_memo = memo@;
        proof {
            lemma_white_mono(v0.update(node as int, true), d0, visiting@, visited@);
        }
        let c = dfs(to, outgoing, edges, visiting, visited, memo, found, Ghost(stack2));
        let vl = visited.len();
        let cand = 1usize.saturating_add(c);
        assert(visiting@[node as int]);
        proof {
            if !*found {
                lemma_count_true_le(visited@);
                assert(memo@[to as int] < count_true(visited@));
                assert(count_true(visited@) <= vl);
                assert(cand as int == 1 + c);
                assert forall|q: int| 0 <= q < k implies before_memo[#[trigger] succ(outgoing@, edges@, node as int, q)] == memo@[succ(outgoing@, edges@, node as int, q)] by {
                    assert(before_visited[succ(outgoing@, edges@, node as int, q)]);
                }
                lemma_best_frame(outgoing@, edges@, before_memo, memo@, node as int, k as int);
            }
        }
        best_v = if cand > best_v {
            cand
        } else {
            best_v
        };
        proof {
            if !*found {
                lemma_count_mono(before_visited, visited@);
            }
        }
        k += 1;
    }
    let ghost pre_memo = memo@;
    let ghost pre_visited = visited@;
    visiting.set(node, false);
    proof {
        if !*found {
            lemma_count_true_set(visited@, node as int);
            lemma_best_stable(outgoing@, edges@, visited@, memo@, node as int, best_v);
            assert forall|q: int| 0 <= q < outgoing@[node as int]@.len() implies #[trigger] succ(outgoing@, edges@, node as int, q) != node as int by {
                assert(visited@[succ(outgoing@, edges@, node as int, q)]);
            }
            assert forall|q: int| 0 <= q < outgoing@[node as int]@.len() implies 0 <= #[trigger] succ(outgoing@, edges@, node as int, q) < memo@.len() by {
                assert(outgoing@[node as int]@[q] < edges@.len());
            }
            lemma_best_update(outgoing@, edges@, memo@, node as int, outgoing@[node as int]@.len() as int, node as int, best_v);
        }
    }
    visited.set(node, true);
    memo.set(node, best_v);
    assert(visiting@ =~= v0);
    proof {
        if !*found {
            assert forall|v: int| 0 <= v < n && #[trigger] visited@[v] implies {
                &&& (forall|q: int| 0 <= q < outgoing@[v]@.len() ==> visited@[#[trigger] succ(outgoing@, edges@, v, q)])
                &&& memo@[v] as int == best(outgoing@, edges@, memo@, v)
                &&& memo@[v] < count_true(visited@)
            } by {
                if v != node as int {
                    assert(pre_visited[v]);
                    assert(forall|q: int| 0 <= q < outgoing@[v]@.len() ==> pre_visited[#[trigger] succ(outgoing@, edges@, v, q)]);
                }
            }
        }
    }
    best_v
}

proof fn lemma_best_frame(outgoing: Seq<Vec<usize>>, edges: Seq<(usize, usize)>, m1: Seq<usize>, m2: Seq<usize>, v: int, k: int)
    requires
        forall|q: int| 0 <= q < k ==> m1[#[trigger] succ(outgoing, edges, v, q)] == m2[succ(outgoing, edges, v, q)],
    ensures
        best_below(outgoing, edges, m1, v, k) == best_below(outgoing, edges, m2, v, k),
    decreases k,
{
    if k > 0 {
        lemma_best_frame(outgoing, edges, m1, m2, v, k - 1);
        assert(m1[succ(outgoing, edges, v, k - 1)] == m2[succ(outgoing, edges, v, k - 1)]);
    }
}

proof fn lemma_count_mono(a: Seq<bool>, b: Seq<bool>)
    requires
        a.len() == b.len(),
        forall|i: int| 0 <= i < a.len() && #[trigger] a[i] ==> b[i],
    ensures
        count_true(a) <= count_true(b),
    decreases a.len(),
{
    if a.len() > 0 {
        lemma_count_mono(a.drop_last(), b.drop_last());
    }
}

// ---------------------------------------------------------------------------
// The longest chain
// ---------------------------------------------------------------------------

pub open spec fn max_memo_below(memo: Seq<usize>, k: int) -> int
    decreases k,
{
    if k <= 0 {
        0
    } else {
        let prev = max_memo_below(memo, k - 1);
        if memo[k - 1] > prev {
            memo[k - 1] as int
        } else {
            prev
        }
    }
}

proof fn lemma_max_frame(m1: Seq<usize>, m2: Seq<usize>, k: int)
    requires
        forall|v: int| 0 <= v < k ==> m1[v] == m2[v],
    ensures
        max_memo_below(m1, k) == max_memo_below(m2, k),
    decreases k,
{
    if k > 0 {
        lemma_max_frame(m1, m2, k - 1);
    }
}

proof fn lemma_max_ge(memo: Seq<usize>, k: int, v: int)
    requires
        0 <= v < k,
    ensures
        max_memo_below(memo, k) >= memo[v],
    decreases k,
{
    if v < k - 1 {
        lemma_max_ge(memo, k - 1, v);
    }
}

proof fn lemma_max_attained(memo: Seq<usize>, k: int) -> (v: int)
    requires
        0 < k <= memo.len(),
    ensures
        0 <= v < k,
        max_memo_below(memo, k) == memo[v],
    decreases k,
{
    if k == 1 {
        assert(max_memo_below(memo, 0) == 0);
        0
    } else {
        let w = lemma_max_attained(memo, k - 1);
        if memo[k - 1] > max_memo_below(memo, k - 1) {
            k - 1
        } else {
            w
        }
    }
}

/// The search has finished every node without finding a cycle: each node's
/// memo is `best` over its successors.
pub open spec fn finished(outgoing: Seq<Vec<usize>>, edges: Seq<(usize, usize)>, memo: Seq<usize>) -> bool {
    &&& graph_ok(outgoing, edges)
    &&& memo.len() == outgoing.len()
    &&& forall|v: int| 0 <= v < outgoing.len() ==> #[trigger] memo[v] as int == best(outgoing, edges, memo, v)
}

proof fn lemma_edge_drop(outgoing: Seq<Vec<usize>>, edges: Seq<(usize, usize)>, memo: Seq<usize>, a: int, b: int)
    requires
        finished(outgoing, edges, memo),
        0 <= a < outgoing.len(),
        has_edge(outgoing, edges, a, b),
    ensures
        memo[a] >= 1 + memo[b],
{
    let k = choose|k: int| 0 <= k < outgoing[a]@.len() && #[trigger] succ(outgoing, edges, a, k) == b;
    lemma_best_ge(outgoing, edges, memo, a, outgoing[a]@.len() as int, k);
    assert(memo[a] as int == best(outgoing, edges, memo, a));
}

proof fn lemma_walk_bound(outgoing: Seq<Vec<usize>>, edges: Seq<(usize, usize)>, memo: Seq<usize>, p: Seq<int>)
    requires
        finished(outgoing, edges, memo),
        is_walk(outgoing, edges, p),
    ensures
        memo[p[0]] >= (p.len() - 1) + memo[p.last()],
    decreases p.len(),
{
    if p.len() > 1 {
        let q = p.drop_first();
        assert forall|i: int| 0 <= i < q.len() implies 0 <= #[trigger] q[i] < outgoing.len() by {
            assert(q[i] == p[i + 1]);
        }
        assert forall|i: int| 0 <= i < q.len() - 1 implies has_edge(outgoing, edges, #[trigger] q[i], q[i + 1]) by {
            assert(q[i] == p[i + 1]);
            assert(q[i + 1] == p[i + 2]);
        }
        lemma_walk_bound(outgoing, edges, memo, q);
        assert(has_edge(outgoing, edges, p[0], p[1]));
        lemma_edge_drop(outgoing, edges, memo, p[0], p[1]);
        assert(q[0] == p[1]);
        assert(q.last() == p.last());
    }
}

/// From every node starts a walk with as many edges as its memo.
proof fn lemma_walk_from(outgoing: Seq<Vec<usize>>, edges: Seq<(usize, usize)>, memo: Seq<usize>, v: int) -> (p: Seq<int>)
    requires
        finished(outgoing, edges, memo),
        0 <= v < outgoing.len(),
    ensures
        is_walk(outgoing, edges, p),
        p[0] == v,
        p.len() - 1 == memo[v],
    decreases memo[v],
{
    if memo[v] == 0 {
        seq![v]
    } else {
        assert(memo[v] as int == best(outgoing, edges, memo, v));
        lemma_best_attained(outgoing, edges, memo, v, outgoing[v]@.len() as int);
        let q = choose|q: int| 0 <= q < outgoing[v]@.len() && best(outgoing, edges, memo, v) == 1 + memo[#[trigger] succ(outgoing, edges, v, q)];
        let s = succ(outgoing, edges, v, q);
        assert(outgoing[v]@[q] < edges.len());
        let w = lemma_walk_from(outgoing, edges, memo, s);
        let p = seq![v] + w;
        assert(p[0] == v);
        assert forall|i: int| 0 <= i < p.len() implies 0 <= #[trigger] p[i] < outgoing.len() by {
            if i > 0 {
                assert(p[i] == w[i - 1]);
            }
        }
        assert forall|i: int| 0 <= i < p.len() - 1 implies has_edge(outgoing, edges, #[trigger] p[i], p[i + 1]) by {
            if i == 0 {
                assert(p[1] == w[0]);
                assert(succ(outgoing, edges, v, q) == s);
            } else {
                assert(p[i] == w[i - 1]);
                assert(p[i + 1] == w[i]);
            }
        }
        p
    }
}

/// The longest chain of same-tick transitions and whether such transitions
/// form a cycle. Without a cycle, every walk has at most `r.1` edges and
/// some walk has exactly that many (none when there are no nodes).
pub fn analyze_longest_chain(outgoing: &[Vec<usize>], edges: &[(usize, usize)]) -> (r: (bool, usize))
    requires
        graph_ok(outgoing@, edges@),
    ensures
        r.0 == has_cycle(outgoing@, edges@),
        !r.0 ==> forall|p: Seq<int>| is_walk(outgoing@, edges@, p) ==> p.len() - 1 <= r.1,
        !r.0 && outgoing@.len() > 0 ==> exists|p: Seq<int>| is_walk(outgoing@, edges@, p) && p.len() - 1 == r.1,
        outgoing@.len() == 0 ==> r.1 == 0,
{
    let n = outgoing.len();
    let mut visiting: Vec<bool> = Vec::new();
    let mut visited: Vec<bool> = Vec::new();
    let mut memo: Vec<usize> = Vec::new();
    let mut i: usize = 0;
    while i < n
        invariant
            i <= n == outgoing@.len(),
            visiting@.len() == i,
            visited@.len() == i,
            memo@.len() == i,
            forall|k: int| 0 <= k < i ==> !(#[trigger] visiting@[k]),
            forall|k: int| 0 <= k < i ==> !(#[trigger] visited@[k]),
        decreases n - i,
    {
        visiting.push(false);
        visited.push(false);
        memo.push(0);
        i += 1;
    }
    let mut found = false;
    let ghost empty: Seq<int> = seq![];
    assert(search_ok(outgoing@, edges@, visiting@, visited@, memo@, found, empty));
    let mut longest: usize = 0;
    let mut node: usize = 0;
    while node < n
        invariant
            node <= n == outgoing@.len(),
            empty == Seq::<int>::empty(),
            search_ok(outgoing@, edges@, visiting@, visited@, memo@, found, empty),
            !found ==> forall|v: int| 0 <= v < node ==> #[trigger] visited@[v],
            !found ==> longest as int == max_memo_below(memo@, node as int),
        decreases n - node,
    {
        let ghost m_before = memo@;
        let ghost d_before = visited@;
        let c = dfs(node, outgoing, edges, &mut visiting, &mut visited, &mut memo, &mut found, Ghost(empty));
        proof {
            if !found {
                assert forall|v: int| 0 <= v < node implies m_before[v] == memo@[v] by {
                    assert(d_before[v]);
                }
                lemma_max_frame(m_before, memo@, node as int);
                assert forall|v: int| 0 <= v < node + 1 implies #[trigger] visited@[v] by {
                    if v < node {
                        assert(d_before[v]);
                    }
                }
            }
        }
        longest = if c > longest {
            c
        } else {
            longest
        };
        node += 1;
    }
    proof {
        if !found {
            assert forall|v: int| 0 <= v < outgoing@.len() implies #[trigger] memo@[v] as int == best(outgoing@, edges@, memo@, v) by {
                assert(visited@[v]);
            }
            assert(finished(outgoing@, edges@, memo@));
            assert forall|p: Seq<int>| is_walk(outgoing@, edges@, p) implies p.len() - 1 <= longest by {
                lemma_walk_bound(outgoing@, edges@, memo@, p);
                lemma_max_ge(memo@, n as int, p[0]);
            }
            if has_cycle(outgoing@, edges@) {
                let p = choose|p: Seq<int>| is_walk(outgoing@, edges@, p) && p.len() >= 2 && #[trigger] p[0] == p.last();
                lemma_walk_bound(outgoing@, edges@, memo@, p);
                assert(false);
            }
            if n > 0 {
                let v = lemma_max_attained(memo@, n as int);
                let p = lemma_walk_from(outgoing@, edges@, memo@, v);
                assert(is_walk(outgoing@, edges@, p) && p.len() - 1 == longest);
            }
        }
    }
    (found, longest)
}

} // verus!
