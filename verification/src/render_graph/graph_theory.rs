//! Plain mathematical vocabulary for the pass dependency graph: topological
//! orders, directed reachability and undirected connectivity over edge lists.
use vstd::prelude::*;

verus! {

/// `order` lists every node `0..n` exactly once, and each edge `(a, b)` has `a`
/// listed before `b`.
pub open spec fn is_topo_order(n: nat, edges: Seq<(usize, usize)>, order: Seq<usize>) -> bool {
    &&& order.len() == n
    &&& forall|i: int| 0 <= i < n ==> (#[trigger] order[i]) < n
    &&& forall|i: int, j: int| 0 <= i < j < n ==> order[i] != order[j]
    &&& forall|x: usize| x < n ==> #[trigger] listed(order, x)
    &&& forall|k: int, i: int, j: int|
        #![trigger edges[k], order[i], order[j]]
        0 <= k < edges.len() && 0 <= i < n && 0 <= j < n && order[i] == edges[k].0 && order[j]
            == edges[k].1 ==> i < j
}

/// `x` occurs in `order`.
pub open spec fn listed(order: Seq<usize>, x: usize) -> bool {
    exists|i: int| 0 <= i < order.len() && order[i] == x
}

/// Every edge goes from a lower node to a higher node.
pub open spec fn edges_forward(edges: Seq<(usize, usize)>) -> bool {
    forall|k: int| 0 <= k < edges.len() ==> (#[trigger] edges[k]).0 < edges[k].1
}

/// Every edge joins two nodes below `n`.
pub open spec fn edges_within(n: nat, edges: Seq<(usize, usize)>) -> bool {
    forall|k: int| 0 <= k < edges.len() ==> (#[trigger] edges[k]).0 < n && edges[k].1 < n
}

/// The identity order `0, 1, ..., n - 1`.
pub open spec fn identity_order(n: nat) -> Seq<usize> {
    Seq::new(n, |i: int| i as usize)
}

/// A graph whose edges all go forward is sorted by the identity order.
pub proof fn lemma_forward_edges_identity_topo(n: nat, edges: Seq<(usize, usize)>)
    requires
        edges_forward(edges),
        n <= usize::MAX + 1,
    ensures
        is_topo_order(n, edges, identity_order(n)),
{
    let o = identity_order(n);
    assert forall|x: usize| x < n implies #[trigger] listed(o, x) by {
        assert(o[x as int] == x);
    }
    assert forall|k: int, i: int, j: int|
        #![trigger edges[k], o[i], o[j]]
        0 <= k < edges.len() && 0 <= i < n && 0 <= j < n && o[i] == edges[k].0 && o[j]
            == edges[k].1 implies i < j by {
        assert(edges[k].0 < edges[k].1);
    }
}

/// There is a direct edge `a -> b`.
pub open spec fn has_edge(edges: Seq<(usize, usize)>, a: usize, b: usize) -> bool {
    exists|k: int| 0 <= k < edges.len() && #[trigger] edges[k] == (a, b)
}

/// `p` is a directed walk: consecutive nodes are joined by edges.
pub open spec fn is_walk(edges: Seq<(usize, usize)>, p: Seq<usize>) -> bool {
    &&& p.len() > 0
    &&& forall|k: int| 0 <= k < p.len() - 1 ==> has_edge(edges, #[trigger] p[k], p[k + 1])
}

/// `b` can be reached from `a` by following edges (zero or more).
pub open spec fn reaches(edges: Seq<(usize, usize)>, a: usize, b: usize) -> bool {
    exists|p: Seq<usize>| #[trigger] is_walk(edges, p) && p[0] == a && p.last() == b
}

pub proof fn lemma_reaches_refl(edges: Seq<(usize, usize)>, a: usize)
    ensures
        reaches(edges, a, a),
{
    let p = seq![a];
    assert(is_walk(edges, p));
    assert(p[0] == a && p.last() == a);
}

pub proof fn lemma_reaches_edge(edges: Seq<(usize, usize)>, a: usize, b: usize)
    requires
        has_edge(edges, a, b),
    ensures
        reaches(edges, a, b),
{
    let p = seq![a, b];
    assert(p[0] == a && p[1] == b && p.last() == b);
    assert(is_walk(edges, p));
}

pub proof fn lemma_reaches_trans(edges: Seq<(usize, usize)>, a: usize, b: usize, c: usize)
    requires
        reaches(edges, a, b),
        reaches(edges, b, c),
    ensures
        reaches(edges, a, c),
{
    let p = choose|p: Seq<usize>| is_walk(edges, p) && p[0] == a && p.last() == b;
    let q = choose|q: Seq<usize>| is_walk(edges, q) && q[0] == b && q.last() == c;
    let r = p + q.drop_first();
    assert forall|k: int| 0 <= k < r.len() - 1 implies has_edge(edges, #[trigger] r[k], r[k + 1]) by {
        if k < p.len() - 1 {
            assert(r[k] == p[k] && r[k + 1] == p[k + 1]);
        } else {
            let m = k - (p.len() - 1);
            assert(r[k] == q[m]);
            assert(r[k + 1] == q[m + 1]);
        }
    }
    assert(is_walk(edges, r));
    assert(r[0] == a);
    assert(r.last() == c) by {
        if q.len() == 1 {
            assert(r.last() == p.last());
        } else {
            assert(r.last() == q.last());
        }
    }
}

/// Adding edges never removes a walk.
pub proof fn lemma_reaches_extend(edges: Seq<(usize, usize)>, more: Seq<(usize, usize)>, a: usize, b: usize)
    requires
        reaches(edges, a, b),
    ensures
        reaches(edges + more, a, b),
{
    let p = choose|p: Seq<usize>| is_walk(edges, p) && p[0] == a && p.last() == b;
    assert forall|k: int| 0 <= k < p.len() - 1 implies has_edge(edges + more, #[trigger] p[k], p[k + 1]) by {
        let j = choose|j: int| 0 <= j < edges.len() && #[trigger] edges[j] == (p[k], p[k + 1]);
        assert((edges + more)[j] == (p[k], p[k + 1]));
    }
    assert(is_walk(edges + more, p));
}

/// Along any walk, a topological order lists the start no later than the end,
/// and strictly earlier when the two differ.
pub proof fn lemma_topo_respects_reaches(
    n: nat,
    edges: Seq<(usize, usize)>,
    order: Seq<usize>,
    a: usize,
    b: usize,
    i: int,
    j: int,
)
    requires
        is_topo_order(n, edges, order),
        edges_within(n, edges),
        reaches(edges, a, b),
        a != b,
        0 <= i < n,
        0 <= j < n,
        order[i] == a,
        order[j] == b,
    ensures
        i < j,
{
    let p = choose|p: Seq<usize>| is_walk(edges, p) && p[0] == a && p.last() == b;
    lemma_walk_positions(n, edges, order, p, i, j);
}

/// Position of `x` in a duplicate-free order that lists it.
pub open spec fn position_of(order: Seq<usize>, x: usize) -> int {
    choose|i: int| 0 <= i < order.len() && order[i] == x
}

proof fn lemma_walk_positions(
    n: nat,
    edges: Seq<(usize, usize)>,
    order: Seq<usize>,
    p: Seq<usize>,
    i: int,
    j: int,
)
    requires
        is_topo_order(n, edges, order),
        edges_within(n, edges),
        is_walk(edges, p),
        p[0] != p.last(),
        0 <= i < n,
        0 <= j < n,
        order[i] == p[0],
        order[j] == p.last(),
    ensures
        i < j,
    decreases p.len(),
{
    // first step p[0] -> p[1]
    assert(has_edge(edges, p[0], p[1]));
    let k = choose|k: int| 0 <= k < edges.len() && #[trigger] edges[k] == (p[0], p[1]);
    // p[1] is a node listed by the order
    let m = lemma_edge_target_listed(n, edges, order, k);
    assert(order[i] == edges[k].0 && order[m] == edges[k].1);
    assert(i < m);
    if p.len() == 2 {
        assert(order[m] == order[j]);
        if m != j {
            if m < j {
                assert(order[m] != order[j]);
            } else {
                assert(order[j] != order[m]);
            }
        }
    } else {
        let q = p.drop_first();
        assert forall|t: int| 0 <= t < q.len() - 1 implies has_edge(edges, #[trigger] q[t], q[t + 1]) by {
            assert(q[t] == p[t + 1] && q[t + 1] == p[t + 2]);
            assert(has_edge(edges, p[t + 1], p[t + 2]));
        }
        assert(is_walk(edges, q));
        if q[0] == q.last() {
            // m and j both list the same node
            if m != j {
                if m < j {
                    assert(order[m] != order[j]);
                } else {
                    assert(order[j] != order[m]);
                }
            }
        } else {
            lemma_walk_positions(n, edges, order, q, m, j);
        }
    }
}

/// The target of every edge appears in a topological order when its source does.
proof fn lemma_edge_target_listed(n: nat, edges: Seq<(usize, usize)>, order: Seq<usize>, k: int) -> (m: int)
    requires
        is_topo_order(n, edges, order),
        0 <= k < edges.len(),
        exists|i: int| 0 <= i < n && order[i] == edges[k].0,
        edges[k].1 < n,
    ensures
        0 <= m < n,
        order[m] == edges[k].1,
{
    let x = edges[k].1;
    assert(listed(order, x));
    let m = choose|m: int| 0 <= m < n && order[m] == x;
    m
}

/// `a` and `b` are joined by one of the pairs, in either direction.
pub open spec fn linked(pairs: Seq<(usize, usize)>, a: usize, b: usize) -> bool {
    exists|k: int| 0 <= k < pairs.len() && (#[trigger] pairs[k] == (a, b) || pairs[k] == (b, a))
}

/// `p` is an undirected chain: consecutive nodes are linked.
pub open spec fn is_chain(pairs: Seq<(usize, usize)>, p: Seq<usize>) -> bool {
    &&& p.len() > 0
    &&& forall|k: int| 0 <= k < p.len() - 1 ==> linked(pairs, #[trigger] p[k], p[k + 1])
}

/// `a` and `b` lie in the same part of the equivalence closure of `pairs`.
pub open spec fn connected(pairs: Seq<(usize, usize)>, a: usize, b: usize) -> bool {
    exists|p: Seq<usize>| #[trigger] is_chain(pairs, p) && p[0] == a && p.last() == b
}

proof fn lemma_linked_push(pairs: Seq<(usize, usize)>, z: (usize, usize), a: usize, b: usize)
    requires
        linked(pairs, a, b),
    ensures
        linked(pairs.push(z), a, b),
{
    let k = choose|k: int| 0 <= k < pairs.len() && (#[trigger] pairs[k] == (a, b) || pairs[k] == (b, a));
    assert(pairs.push(z)[k] == pairs[k]);
}

/// Every node is connected to itself.
pub proof fn lemma_connected_refl(pairs: Seq<(usize, usize)>, a: usize)
    ensures
        connected(pairs, a, a),
{
    let p = seq![a];
    assert(is_chain(pairs, p));
}

/// Linked nodes are connected.
pub proof fn lemma_connected_link(pairs: Seq<(usize, usize)>, a: usize, b: usize)
    requires
        linked(pairs, a, b),
    ensures
        connected(pairs, a, b),
{
    let p = seq![a, b];
    assert(p[0] == a && p[1] == b);
    assert(is_chain(pairs, p));
}

/// Connection is symmetric.
pub proof fn lemma_connected_symm(pairs: Seq<(usize, usize)>, a: usize, b: usize)
    requires
        connected(pairs, a, b),
    ensures
        connected(pairs, b, a),
{
    let p = choose|p: Seq<usize>| #[trigger] is_chain(pairs, p) && p[0] == a && p.last() == b;
    let q = p.reverse();
    assert forall|k: int| 0 <= k < q.len() - 1 implies linked(pairs, #[trigger] q[k], q[k + 1]) by {
        let i = p.len() - 2 - k;
        assert(q[k] == p[i + 1] && q[k + 1] == p[i]);
        assert(linked(pairs, p[i], p[i + 1]));
    }
    assert(is_chain(pairs, q));
    assert(q[0] == b && q.last() == a);
}

/// Connection is transitive.
pub proof fn lemma_connected_trans(pairs: Seq<(usize, usize)>, a: usize, b: usize, c: usize)
    requires
        connected(pairs, a, b),
        connected(pairs, b, c),
    ensures
        connected(pairs, a, c),
{
    let p = choose|p: Seq<usize>| #[trigger] is_chain(pairs, p) && p[0] == a && p.last() == b;
    let q = choose|q: Seq<usize>| #[trigger] is_chain(pairs, q) && q[0] == b && q.last() == c;
    let r = p + q.drop_first();
    assert forall|k: int| 0 <= k < r.len() - 1 implies linked(pairs, #[trigger] r[k], r[k + 1]) by {
        if k < p.len() - 1 {
            assert(r[k] == p[k] && r[k + 1] == p[k + 1]);
        } else {
            let j = k - p.len() + 1;
            assert(r[k] == q[j] && r[k + 1] == q[j + 1]);
        }
    }
    assert(is_chain(pairs, r));
    assert(r[0] == a);
    if q.len() == 1 {
        assert(r.last() == p.last());
    } else {
        assert(r.last() == q.last());
    }
}

/// Adding a pair keeps every connection.
pub proof fn lemma_connected_push(pairs: Seq<(usize, usize)>, z: (usize, usize), a: usize, b: usize)
    requires
        connected(pairs, a, b),
    ensures
        connected(pairs.push(z), a, b),
{
    let p = choose|p: Seq<usize>| #[trigger] is_chain(pairs, p) && p[0] == a && p.last() == b;
    assert forall|k: int| 0 <= k < p.len() - 1 implies linked(pairs.push(z), #[trigger] p[k], p[k + 1]) by {
        lemma_linked_push(pairs, z, p[k], p[k + 1]);
    }
    assert(is_chain(pairs.push(z), p));
}

/// Without pairs a node is connected to itself only.
pub proof fn lemma_connected_empty(a: usize, b: usize)
    requires
        connected(Seq::<(usize, usize)>::empty(), a, b),
    ensures
        a == b,
{
    let e = Seq::<(usize, usize)>::empty();
    let p = choose|p: Seq<usize>| #[trigger] is_chain(e, p) && p[0] == a && p.last() == b;
    if p.len() > 1 {
        assert(linked(e, p[0], p[1]));
    }
}

/// `a` and `b` are connected once the pair `(x, y)` joins the classes of `x`
/// and `y`: they were connected, or one lies with `x` and the other with `y`.
pub open spec fn joined(pairs: Seq<(usize, usize)>, x: usize, y: usize, a: usize, b: usize) -> bool {
    ||| connected(pairs, a, b)
    ||| connected(pairs, a, x) && connected(pairs, y, b)
    ||| connected(pairs, a, y) && connected(pairs, x, b)
}

proof fn lemma_joined_step(pairs: Seq<(usize, usize)>, x: usize, y: usize, a: usize, u: usize, v: usize)
    requires
        joined(pairs, x, y, a, u),
        linked(pairs.push((x, y)), u, v),
    ensures
        joined(pairs, x, y, a, v),
{
    let pp = pairs.push((x, y));
    let k = choose|k: int| 0 <= k < pp.len() && (#[trigger] pp[k] == (u, v) || pp[k] == (v, u));
    if k < pairs.len() {
        assert(pairs[k] == pp[k]);
        assert(linked(pairs, u, v));
        lemma_connected_link(pairs, u, v);
        if connected(pairs, a, u) {
            lemma_connected_trans(pairs, a, u, v);
        }
        if connected(pairs, y, u) {
            lemma_connected_trans(pairs, y, u, v);
        }
        if connected(pairs, x, u) {
            lemma_connected_trans(pairs, x, u, v);
        }
    } else {
        lemma_connected_refl(pairs, x);
        lemma_connected_refl(pairs, y);
        if u == x && v == y {
            if connected(pairs, a, x) {
            } else if connected(pairs, a, y) && connected(pairs, x, x) {
            } else {
                // a with y and u (= x) with x: a is connected to y = v
                assert(connected(pairs, a, y));
            }
        } else {
            assert(u == y && v == x);
            if connected(pairs, a, y) {
            } else {
                assert(connected(pairs, a, x));
            }
        }
    }
}

proof fn lemma_chain_joined(pairs: Seq<(usize, usize)>, x: usize, y: usize, p: Seq<usize>, k: int)
    requires
        is_chain(pairs.push((x, y)), p),
        0 <= k < p.len(),
    ensures
        joined(pairs, x, y, p[0], p[k]),
    decreases k,
{
    if k == 0 {
        lemma_connected_refl(pairs, p[0]);
    } else {
        lemma_chain_joined(pairs, x, y, p, k - 1);
        assert(linked(pairs.push((x, y)), p[k - 1], p[k]));
        lemma_joined_step(pairs, x, y, p[0], p[k - 1], p[k]);
    }
}

/// Adding the pair `(x, y)` connects exactly the nodes that were connected,
/// and those of the class of `x` with those of the class of `y`.
pub proof fn lemma_connected_push_iff(pairs: Seq<(usize, usize)>, x: usize, y: usize, a: usize, b: usize)
    ensures
        connected(pairs.push((x, y)), a, b) <==> joined(pairs, x, y, a, b),
{
    let pp = pairs.push((x, y));
    if connected(pp, a, b) {
        let p = choose|p: Seq<usize>| #[trigger] is_chain(pp, p) && p[0] == a && p.last() == b;
        lemma_chain_joined(pairs, x, y, p, p.len() - 1);
    }
    if joined(pairs, x, y, a, b) {
        assert(pp[pairs.len() as int] == (x, y));
        assert(linked(pp, x, y));
        lemma_connected_link(pp, x, y);
        lemma_connected_symm(pp, x, y);
        if connected(pairs, a, b) {
            lemma_connected_push(pairs, (x, y), a, b);
        } else if connected(pairs, a, x) && connected(pairs, y, b) {
            lemma_connected_push(pairs, (x, y), a, x);
            lemma_connected_push(pairs, (x, y), y, b);
            lemma_connected_trans(pp, a, x, y);
            lemma_connected_trans(pp, a, y, b);
        } else {
            lemma_connected_push(pairs, (x, y), a, y);
            lemma_connected_push(pairs, (x, y), x, b);
            lemma_connected_trans(pp, a, y, x);
            lemma_connected_trans(pp, a, x, b);
        }
    }
}

} // verus!
