//! Trusted bridge to `petgraph`: the pass dependency graph (`petgraph::graph::Graph`),
//! its topological sort (`petgraph::algo::toposort`) and the union-find used to
//! split passes into weakly-connected components (`petgraph::unionfind::UnionFind`).
//!
//! Nothing in this file is proved: each item states what the petgraph 0.6 source
//! does, and the verified scheduler is proved against those statements.
use vstd::prelude::*;
use petgraph::graph::{EdgeIndex, Graph, NodeIndex};
use petgraph::unionfind::UnionFind;
use petgraph::Directed;
use crate::render_graph::graph_theory::{has_edge, is_topo_order};

verus! {

#[verifier::external_type_specification]
#[verifier::external_body]
#[verifier::reject_recursive_types(N)]
#[verifier::reject_recursive_types(E)]
#[verifier::reject_recursive_types(Ty)]
#[verifier::reject_recursive_types(Ix)]
pub struct ExGraph<N, E, Ty, Ix>(Graph<N, E, Ty, Ix>);

#[verifier::external_type_specification]
#[verifier::external_body]
pub struct ExDirected(Directed);

#[verifier::external_type_specification]
#[verifier::external_body]
#[verifier::reject_recursive_types(K)]
pub struct ExUnionFind<K>(UnionFind<K>);

/// The directed graph of passes: node weights are pass ids, edges carry no
/// weight (their barriers are kept beside the graph, by edge index).
pub type PassDiGraph = Graph<usize, (), Directed, u32>;

/// Node weights of a pass graph, by node index.
pub uninterp spec fn pass_graph_nodes(g: Graph<usize, (), Directed, u32>) -> Seq<usize>;

/// Edges of a pass graph as `(source index, target index)`, by edge index.
pub uninterp spec fn pass_graph_edges(g: Graph<usize, (), Directed, u32>) -> Seq<(usize, usize)>;

/// The partition a union-find holds, as a relation: the pairs `(i, j)` of
/// its elements (below its size) that have the same representative.
pub uninterp spec fn union_find_related(u: UnionFind<usize>) -> Set<(usize, usize)>;

/// Each element below `n` on its own.
pub open spec fn identity_rel(n: nat) -> Set<(usize, usize)> {
    Set::new(|p: (usize, usize)| p.0 < n && p.0 == p.1)
}

/// The equivalence relation `rel` with the classes of `x` and `y` merged.
pub open spec fn merged(rel: Set<(usize, usize)>, x: usize, y: usize) -> Set<(usize, usize)> {
    Set::new(|p: (usize, usize)|
        rel.contains(p) || (rel.contains((p.0, x)) && rel.contains((y, p.1)))
            || (rel.contains((p.0, y)) && rel.contains((x, p.1))))
}

/// Number of elements a union-find was created with.
pub uninterp spec fn union_find_size(u: UnionFind<usize>) -> nat;

/// `Graph::with_capacity`: an empty graph (the capacities only reserve memory).
#[verifier::external_body]
pub(crate) fn pass_graph_with_capacity(nodes: usize, edges: usize) -> (g: PassDiGraph)
    ensures
        pass_graph_nodes(g) == Seq::<usize>::empty(),
        pass_graph_edges(g) == Seq::<(usize, usize)>::empty(),
{
    Graph::with_capacity(nodes, edges)
}

/// `Graph::add_node`: appends a node and returns its index, which is the old
/// node count. The source asserts that the new index is not `u32::MAX`.
#[verifier::external_body]
pub(crate) fn pass_graph_add_node(g: &mut PassDiGraph, weight: usize) -> (r: usize)
    requires
        pass_graph_nodes(*old(g)).len() < u32::MAX,
    ensures
        r == pass_graph_nodes(*old(g)).len(),
        pass_graph_nodes(*final(g)) == pass_graph_nodes(*old(g)).push(weight),
        pass_graph_edges(*final(g)) == pass_graph_edges(*old(g)),
{
    g.add_node(weight).index()
}

/// `Graph::add_edge`: appends the edge `a -> b` and returns its index, the old
/// edge count. The source panics when an endpoint is not a node, and asserts
/// that the new index is not `u32::MAX`.
#[verifier::external_body]
pub(crate) fn pass_graph_add_edge(g: &mut PassDiGraph, a: usize, b: usize) -> (r: usize)
    requires
        a < pass_graph_nodes(*old(g)).len(),
        b < pass_graph_nodes(*old(g)).len(),
        pass_graph_nodes(*old(g)).len() < u32::MAX,
        pass_graph_edges(*old(g)).len() < u32::MAX,
    ensures
        r == pass_graph_edges(*old(g)).len(),
        pass_graph_edges(*final(g)) == pass_graph_edges(*old(g)).push((a, b)),
        pass_graph_nodes(*final(g)) == pass_graph_nodes(*old(g)),
{
    g.add_edge(NodeIndex::new(a), NodeIndex::new(b), ()).index()
}

/// `Graph::find_edge` on a directed graph: scans the outgoing edges of `a` for
/// one that ends at `b`; `None` when there is none.
#[verifier::external_body]
pub(crate) fn pass_graph_find_edge(g: &PassDiGraph, a: usize, b: usize) -> (r: Option<usize>)
    requires
        a < pass_graph_nodes(*g).len(),
        b < pass_graph_nodes(*g).len(),
        pass_graph_nodes(*g).len() < u32::MAX,
    ensures
        match r {
            Some(e) => e < pass_graph_edges(*g).len() && pass_graph_edges(*g)[e as int] == (a, b),
            None => !has_edge(pass_graph_edges(*g), a, b),
        },
{
    g.find_edge(NodeIndex::new(a), NodeIndex::new(b)).map(|e| e.index())
}

/// `Graph::edge_count`.
#[verifier::external_body]
pub(crate) fn pass_graph_edge_count(g: &PassDiGraph) -> (r: usize)
    ensures
        r == pass_graph_edges(*g).len(),
{
    g.edge_count()
}

/// `Graph::edge_endpoints` of an existing edge.
#[verifier::external_body]
pub(crate) fn pass_graph_edge_endpoints(g: &PassDiGraph, e: usize) -> (r: Option<(usize, usize)>)
    requires
        e < pass_graph_edges(*g).len(),
        pass_graph_edges(*g).len() <= u32::MAX,
    ensures
        r == Some(pass_graph_edges(*g)[e as int]),
{
    g.edge_endpoints(EdgeIndex::new(e)).map(|(a, b)| (a.index(), b.index()))
}

/// `petgraph::algo::toposort(g, None)`: on success every node, each listed once,
/// before all of its successors; the error (`Cycle`) only when the graph has a
/// cycle, that is when no such order exists.
#[verifier::external_body]
pub(crate) fn pass_graph_toposort(g: &PassDiGraph) -> (r: Result<Vec<usize>, ()>)
    ensures
        match r {
            Ok(order) => is_topo_order(pass_graph_nodes(*g).len(), pass_graph_edges(*g), order@),
            Err(_) => !(exists|o: Seq<usize>| is_topo_order(pass_graph_nodes(*g).len(), pass_graph_edges(*g), o)),
        },
{
    match petgraph::algo::toposort(g, None) {
        Ok(order) => Ok(order.into_iter().map(|n| n.index()).collect()),
        Err(_) => Err(()),
    }
}

/// `UnionFind::new(n)`: `n` singleton sets.
#[verifier::external_body]
pub(crate) fn union_find_new(n: usize) -> (u: UnionFind<usize>)
    ensures
        union_find_size(u) == n,
        union_find_related(u) == identity_rel(n as nat),
{
    UnionFind::new(n)
}

/// `UnionFind::union(x, y)`: merges the sets of `x` and `y`; `true` exactly when
/// they were in different sets (so `false` when `x == y`). The source panics
/// when an element is out of bounds.
#[verifier::external_body]
pub(crate) fn union_find_union(u: &mut UnionFind<usize>, x: usize, y: usize) -> (r: bool)
    requires
        x < union_find_size(*old(u)),
        y < union_find_size(*old(u)),
    ensures
        union_find_size(*final(u)) == union_find_size(*old(u)),
        union_find_related(*final(u)) == merged(union_find_related(*old(u)), x, y),
        r == !union_find_related(*old(u)).contains((x, y)),
{
    u.union(x, y)
}

/// `UnionFind::into_labeling`: maps every element to the representative of its
/// set, which is a member of that set; two elements get the same label exactly
/// when they are in the same set.
#[verifier::external_body]
pub(crate) fn union_find_into_labeling(u: UnionFind<usize>) -> (labels: Vec<usize>)
    ensures
        labels@.len() == union_find_size(u),
        forall|i: int| 0 <= i < labels@.len() ==> (#[trigger] labels@[i]) < union_find_size(u)
            && union_find_related(u).contains((i as usize, labels@[i])),
        forall|i: int, j: int| 0 <= i < labels@.len() && 0 <= j < labels@.len() ==>
            (labels@[i] == labels@[j] <==> union_find_related(u).contains((i as usize, j as usize))),
{
    u.into_labeling()
}

} // verus!
