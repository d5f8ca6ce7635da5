//! The products of compiling a render graph, each computed from the lifetime
//! table and the pass dependency graph that the scan builds: the end state of
//! every resource, the weakly-connected components of the passes, the initial
//! transitions of created images and the pass schedule with its barriers.
use vstd::prelude::*;
use crate::render_graph::access::{AccessType, PassResourceAccessType};
use crate::render_graph::id_map::{IdMap, has_key, lemma_sorted_lookup};
use crate::render_graph::hazard::{
    AccessEvent, usage_list, dep_edges, dep_barriers, events_of, lemma_events_sorted, lemma_dep_edges_forward,
    lemma_edge_from_dep, lemma_deps_nondecreasing, lemma_event_pass_bound, lemma_conflicting_accesses_ordered,
    Dep, lemma_dep_barriers_push, lemma_dep_in_edges, lemma_dep_edges_distinct, wait_of, lemma_waits_name_earlier_access,
};
use crate::render_graph::graph::{ResourceEndState, ResourceLifetimeUsage, usages_match, usage_ok, usage_matches};
use crate::render_graph::resource::{GraphResourceImportInfo, GraphResourceInfo};
use crate::render_graph::graph::{
    PassDependencyGraph, ResourceBarrier, pass_accesses, pass_list_events, pass_list_deps, compilable,
};
use crate::render_graph::pass_builder::AnyRenderPass;
use crate::render_graph::graph_theory::{
    connected, edges_within, edges_forward, is_topo_order, lemma_topo_respects_reaches, lemma_connected_refl,
    lemma_connected_empty, lemma_connected_push_iff,
};
use crate::render_graph::pass_graph::{
    pass_graph_edges, pass_graph_edge_count, pass_graph_edge_endpoints, union_find_new, union_find_union,
    union_find_into_labeling, union_find_related, union_find_size, identity_rel, merged,
};

verus! {

/// The registry entry is the imported swapchain image.
pub open spec fn is_swapchain(info: GraphResourceInfo) -> bool {
    info matches GraphResourceInfo::Imported(GraphResourceImportInfo::SwapchainImage { .. })
}

/// End state of a resource with registry entry `info` and touches `uses`: the
/// last pass that touched it and the access it is left in. A swapchain image
/// that some pass used is left ready to present.
pub open spec fn end_state_spec(info: GraphResourceInfo, uses: Seq<(usize, PassResourceAccessType)>) -> ResourceEndState {
    ResourceEndState {
        last_use_pass: if uses.len() > 0 { Some(uses.last().0) } else { None },
        end_access: if uses.len() > 0 {
            if is_swapchain(info) { AccessType::Present } else { uses.last().1.access_type }
        } else {
            AccessType::Nothing
        },
        internal: info is Created,
    }
}

/// The final transition of the swapchain image `swapchain` with touches
/// `uses`, issued after every pass: from its last access to presentation;
/// none when no swapchain is imported or no pass uses it.
pub open spec fn present_barrier_spec(swapchain: Option<u32>, uses: Seq<(usize, PassResourceAccessType)>) -> Option<ResourceBarrier> {
    match swapchain {
        Some(id) => if uses.len() > 0 {
            Some(ResourceBarrier { resource_id: id, prev_access: uses.last().1.access_type, next_access: AccessType::Present })
        } else {
            None
        },
        None => None,
    }
}

/// The final transition of the swapchain image into presentation.
pub fn present_barrier(
    swapchain: Option<u32>,
    usages: &IdMap<ResourceLifetimeUsage>,
    Ghost(evs): Ghost<Seq<AccessEvent>>,
) -> (r: Option<ResourceBarrier>)
    requires
        usages.wf(),
        usages_match(usages@, evs, evs.len() as int),
    ensures
        r == present_barrier_spec(swapchain, match swapchain {
            Some(id) => usage_list(evs, evs.len() as int, id),
            None => Seq::empty(),
        }),
{
    match swapchain {
        Some(id) => {
            proof {
                assert(usage_ok(usages@, evs, evs.len() as int, id));
            }
            match usages.find(id) {
                Some(pos) => {
                    proof {
                        lemma_sorted_lookup(usages.entries(), pos as int);
                    }
                    let u = usages.value_at(pos);
                    let last = u.usages.len() - 1;
                    let (_, access) = u.usages[last];
                    Some(ResourceBarrier { resource_id: id, prev_access: access.access_type, next_access: AccessType::Present })
                },
                None => {
                    proof {
                        assert(!usages@.contains_key(id));
                    }
                    None
                },
            }
        },
        None => None,
    }
}

/// The end state of every registered resource, by id.
pub fn collect_end_states(
    resources: &Vec<GraphResourceInfo>,
    usages: &IdMap<ResourceLifetimeUsage>,
    Ghost(evs): Ghost<Seq<AccessEvent>>,
) -> (r: Vec<ResourceEndState>)
    requires
        usages.wf(),
        usages_match(usages@, evs, evs.len() as int),
        resources@.len() <= u32::MAX,
    ensures
        r@.len() == resources@.len(),
        forall|i: int| 0 <= i < r@.len() ==> #[trigger] r@[i] == end_state_spec(resources@[i], usage_list(evs, evs.len() as int, i as u32)),
{
    let mut out: Vec<ResourceEndState> = Vec::new();
    let n = resources.len();
    let mut i: usize = 0;
    while i < n
        invariant
            i <= n,
            n == resources@.len(),
            n <= u32::MAX,
            usages.wf(),
            usages_match(usages@, evs, evs.len() as int),
            out@.len() == i,
            forall|k: int| 0 <= k < i ==> #[trigger] out@[k] == end_state_spec(resources@[k], usage_list(evs, evs.len() as int, k as u32)),
        decreases n - i,
    {
        let id = i as u32;
        let internal = resources[i].is_created();
        let swapchain = resources[i].is_swapchain();
        let ghost uses = usage_list(evs, evs.len() as int, id);
        proof {
            assert(usage_ok(usages@, evs, evs.len() as int, id));
        }
        let st = match usages.find(id) {
            Some(pos) => {
                proof {
                    lemma_sorted_lookup(usages.entries(), pos as int);
                }
                let u = usages.value_at(pos);
                let last = u.usages.len() - 1;
                let (pass, access) = u.usages[last];
                let end_access = if swapchain { AccessType::Present } else { access.access_type };
                ResourceEndState { last_use_pass: Some(pass), end_access, internal }
            },
            None => {
                proof {
                    assert(!usages@.contains_key(id));
                }
                ResourceEndState { last_use_pass: None, end_access: AccessType::Nothing, internal }
            },
        };
        out.push(st);
        i = i + 1;
    }
    out
}

/// A weakly-connected component of the dependency graph: a set of passes that
/// transitively share resources, plus the resource ids those passes touch.
/// Transient memory aliasing is computed independently per component.
#[derive(Debug)]
pub struct PassComponent {
    pub passes: Vec<usize>,
    pub resources: Vec<u32>,
}

/// The pass ids of `s` strictly increase.
pub open spec fn strictly_increasing(s: Seq<usize>) -> bool {
    forall|i: int, j: int| 0 <= i < j < s.len() ==> s[i] < s[j]
}

/// The resource ids of `s` strictly increase.
pub open spec fn ids_increasing(s: Seq<u32>) -> bool {
    forall|i: int, j: int| 0 <= i < j < s.len() ==> s[i] < s[j]
}

/// `comps` with `comp_of` split the passes `0..n` into the classes of
/// `connected(edges, _, _)`: pass `p` lies in component `comp_of[p]` and in no
/// other, each component lists its passes in increasing order, and components
/// come in the order of their first pass.
pub open spec fn components_partition(
    comps: Seq<PassComponent>,
    comp_of: Seq<usize>,
    n: nat,
    edges: Seq<(usize, usize)>,
) -> bool {
    &&& comp_of.len() == n
    &&& forall|p: int| 0 <= p < n ==> (#[trigger] comp_of[p]) < comps.len()
    &&& forall|p: int, q: int| 0 <= p < n && 0 <= q < n ==>
            (comp_of[p] == comp_of[q] <==> connected(edges, p as usize, q as usize))
    &&& forall|c: int| 0 <= c < comps.len() ==> (#[trigger] comps[c]).passes@.len() > 0
            && strictly_increasing(comps[c].passes@)
    &&& forall|c: int, k: int| 0 <= c < comps.len() && 0 <= k < comps[c].passes@.len() ==>
            (#[trigger] comps[c].passes@[k]) < n && comp_of[comps[c].passes@[k] as int] == c
    &&& forall|p: int| 0 <= p < n ==> (#[trigger] comps[comp_of[p] as int]).passes@.contains(p as usize)
    &&& forall|c: int, d: int| 0 <= c < d < comps.len() ==> comps[c].passes@[0] < comps[d].passes@[0]
}

/// Each component lists, in increasing id order, exactly the touched resources
/// whose first pass lies in it.
pub open spec fn components_resources(
    comps: Seq<PassComponent>,
    comp_of: Seq<usize>,
    usages: Map<u32, ResourceLifetimeUsage>,
) -> bool {
    &&& forall|c: int| 0 <= c < comps.len() ==> ids_increasing((#[trigger] comps[c]).resources@)
    &&& forall|c: int, k: int| 0 <= c < comps.len() && 0 <= k < comps[c].resources@.len() ==>
            usages.contains_key(#[trigger] comps[c].resources@[k])
            && comp_of[usages[comps[c].resources@[k]].first_pass as int] == c
    &&& forall|r: u32| #[trigger] usages.contains_key(r) ==>
            comps[comp_of[usages[r].first_pass as int] as int].resources@.contains(r)
}

/// The pairs of nodes below `n` that `pairs` connect.
pub open spec fn connected_rel(n: nat, pairs: Seq<(usize, usize)>) -> Set<(usize, usize)> {
    Set::new(|p: (usize, usize)| p.0 < n && p.1 < n && connected(pairs, p.0, p.1))
}

/// With no pairs, each node is connected to itself only.
proof fn lemma_connected_rel_empty(n: nat)
    ensures
        connected_rel(n, Seq::empty()) == identity_rel(n),
{
    assert forall|p: (usize, usize)| connected_rel(n, Seq::empty()).contains(p) == identity_rel(n).contains(p) by {
        if connected(Seq::<(usize, usize)>::empty(), p.0, p.1) {
            lemma_connected_empty(p.0, p.1);
        }
        lemma_connected_refl(Seq::<(usize, usize)>::empty(), p.0);
    }
    assert(connected_rel(n, Seq::empty()) =~= identity_rel(n));
}

/// Adding the pair `(x, y)` of nodes below `n` merges their classes.
proof fn lemma_connected_rel_push(n: nat, pairs: Seq<(usize, usize)>, x: usize, y: usize)
    requires
        x < n,
        y < n,
    ensures
        connected_rel(n, pairs.push((x, y))) == merged(connected_rel(n, pairs), x, y),
{
    let rel = connected_rel(n, pairs);
    assert forall|p: (usize, usize)| connected_rel(n, pairs.push((x, y))).contains(p) == merged(rel, x, y).contains(p) by {
        lemma_connected_push_iff(pairs, x, y, p.0, p.1);
    }
    assert(connected_rel(n, pairs.push((x, y))) =~= merged(rel, x, y));
}

/// Split the passes into the weakly-connected components of the dependency
/// graph (union-find over its edges) and file every touched resource under
/// the component of its first pass.
pub fn pass_components(
    dg: &PassDependencyGraph,
    pass_count: usize,
    usages: &IdMap<ResourceLifetimeUsage>,
) -> (r: (Vec<PassComponent>, Vec<usize>))
    requires
        dg.node_count() == pass_count,
        edges_within(pass_count as nat, dg.edges()),
        dg.edges().len() <= u32::MAX,
        usages.wf(),
        forall|k: u32| #[trigger] usages@.contains_key(k) ==> usages@[k].first_pass < pass_count,
    ensures
        components_partition(r.0@, r.1@, pass_count as nat, dg.edges()),
        components_resources(r.0@, r.1@, usages@),
{
    let ghost edges = dg.edges();
    let n = pass_count;
    let mut uf = union_find_new(n);
    proof {
        lemma_connected_rel_empty(n as nat);
        assert(edges.take(0) =~= Seq::<(usize, usize)>::empty());
    }
    let ecount = pass_graph_edge_count(&dg.graph);
    let mut e: usize = 0;
    while e < ecount
        invariant
            e <= ecount,
            ecount == edges.len(),
            edges == pass_graph_edges(dg.graph),
            edges.len() <= u32::MAX,
            edges_within(n as nat, edges),
            union_find_size(uf) == n,
            union_find_related(uf) == connected_rel(n as nat, edges.take(e as int)),
        decreases ecount - e,
    {
        let ab = pass_graph_edge_endpoints(&dg.graph, e);
        let (a, b) = match ab {
            Some(x) => x,
            None => (0, 0),
        };
        proof {
            assert(edges[e as int] == (a, b));
            assert(edges.take(e as int).push((a, b)) =~= edges.take(e + 1));
            lemma_connected_rel_push(n as nat, edges.take(e as int), a, b);
        }
        union_find_union(&mut uf, a, b);
        e = e + 1;
    }
    proof {
        assert(edges.take(ecount as int) =~= edges);
    }
    let labels = union_find_into_labeling(uf);

    let mut comps: Vec<PassComponent> = Vec::new();
    let mut comp_of: Vec<usize> = Vec::new();
    let mut slot: Vec<Option<usize>> = Vec::new();
    let mut l: usize = 0;
    while l < n
        invariant
            l <= n,
            slot@.len() == l,
            forall|k: int| 0 <= k < l ==> (#[trigger] slot@[k]) is None,
        decreases n - l,
    {
        slot.push(None);
        l = l + 1;
    }
    let ghost mut comp_label: Seq<usize> = Seq::empty();
    let mut p: usize = 0;
    while p < n
        invariant
            p <= n,
            labels@.len() == n,
            forall|i: int| 0 <= i < n ==> (#[trigger] labels@[i]) < n,
            forall|i: int, j: int| 0 <= i < n && 0 <= j < n ==>
                (labels@[i] == labels@[j] <==> connected(edges, i as usize, j as usize)),
            slot@.len() == n,
            comp_label.len() == comps@.len(),
            comp_of@.len() == p,
            forall|q: int| 0 <= q < p ==> (#[trigger] comp_of@[q]) < comps@.len(),
            forall|q: int| 0 <= q < p ==> comp_label[#[trigger] comp_of@[q] as int] == labels@[q],
            forall|q: int| 0 <= q < p ==> slot@[#[trigger] labels@[q] as int] == Some(comp_of@[q]),
            forall|x: int| 0 <= x < n ==> match #[trigger] slot@[x] {
                Some(c) => c < comps@.len() && comp_label[c as int] == x,
                None => forall|q: int| 0 <= q < p ==> labels@[q] != x,
            },
            forall|c: int| 0 <= c < comps@.len() ==> (#[trigger] comps@[c]).passes@.len() > 0
                && strictly_increasing(comps@[c].passes@)
                && comps@[c].resources@.len() == 0,
            forall|c: int, k: int| 0 <= c < comps@.len() && 0 <= k < comps@[c].passes@.len() ==>
                (#[trigger] comps@[c].passes@[k]) < p && comp_of@[comps@[c].passes@[k] as int] == c,
            forall|q: int| 0 <= q < p ==> (#[trigger] comps@[comp_of@[q] as int]).passes@.contains(q as usize),
            forall|c: int, d: int| 0 <= c < d < comps@.len() ==> comps@[c].passes@[0] < comps@[d].passes@[0],
        decreases n - p,
    {
        let lab = labels[p];
        match slot[lab] {
            Some(c) => {
                let ghost before = comps@;
                let comp = &mut comps[c];
                comp.passes.push(p);
                comp_of.push(c);
                proof {
                    assert forall|d: int| 0 <= d < comps@.len() && d != c implies comps@[d] == before[d] by {}
                    assert forall|c2: int, k: int| 0 <= c2 < comps@.len() && 0 <= k < comps@[c2].passes@.len() implies
                        (#[trigger] comps@[c2].passes@[k]) < p + 1 && comp_of@[comps@[c2].passes@[k] as int] == c2 by {
                        if c2 != c || k < before[c2].passes@.len() {
                            assert(comps@[c2].passes@[k] == before[c2].passes@[k]);
                        }
                    }
                    assert forall|q: int| 0 <= q < p + 1 implies (#[trigger] comps@[comp_of@[q] as int]).passes@.contains(q as usize) by {
                        if q < p {
                            let k = choose|k: int| 0 <= k < before[comp_of@[q] as int].passes@.len() && before[comp_of@[q] as int].passes@[k] == q as usize;
                            assert(comps@[comp_of@[q] as int].passes@[k] == q as usize);
                        } else {
                            assert(comps@[c as int].passes@.last() == p);
                        }
                    }
                    assert forall|c2: int| 0 <= c2 < comps@.len() implies (#[trigger] comps@[c2]).passes@.len() > 0
                        && strictly_increasing(comps@[c2].passes@) && comps@[c2].resources@.len() == 0 by {
                        if c2 == c {
                            let s = comps@[c2].passes@;
                            assert forall|i: int, j: int| 0 <= i < j < s.len() implies s[i] < s[j] by {
                                if j < s.len() - 1 {
                                    assert(s[i] == before[c2].passes@[i] && s[j] == before[c2].passes@[j]);
                                } else {
                                    assert(s[i] == before[c2].passes@[i]);
                                }
                            }
                        }
                    }
                    assert forall|c2: int, d: int| 0 <= c2 < d < comps@.len() implies comps@[c2].passes@[0] < comps@[d].passes@[0] by {
                        assert(comps@[c2].passes@[0] == before[c2].passes@[0]);
                        assert(comps@[d].passes@[0] == before[d].passes@[0]);
                    }
                }
            },
            None => {
                let c = comps.len();
                let mut ps: Vec<usize> = Vec::new();
                ps.push(p);
                let ghost before = comps@;
                comps.push(PassComponent { passes: ps, resources: Vec::new() });
                comp_of.push(c);
                slot.set(lab, Some(c));
                proof {
                    comp_label = comp_label.push(lab);
                    assert forall|q: int| 0 <= q < p + 1 implies (#[trigger] comps@[comp_of@[q] as int]).passes@.contains(q as usize) by {
                        if q < p {
                            let k = choose|k: int| 0 <= k < before[comp_of@[q] as int].passes@.len() && before[comp_of@[q] as int].passes@[k] == q as usize;
                            assert(comps@[comp_of@[q] as int].passes@[k] == q as usize);
                        } else {
                            assert(comps@[c as int].passes@[0] == p);
                        }
                    }
                    assert forall|c2: int, d: int| 0 <= c2 < d < comps@.len() implies comps@[c2].passes@[0] < comps@[d].passes@[0] by {
                        assert(comps@[c2].passes@[0] == before[c2].passes@[0]);
                        assert(before[c2].passes@[0] < p);
                    }
                    assert forall|q: int| 0 <= q < p + 1 implies slot@[#[trigger] labels@[q] as int] == Some(comp_of@[q]) by {
                        if q < p && labels@[q] == lab {
                            assert(false);
                        }
                    }
                }
            },
        }
        p = p + 1;
    }
    proof {
        assert forall|i: int, j: int| 0 <= i < n && 0 <= j < n implies
            (comp_of@[i] == comp_of@[j] <==> connected(edges, i as usize, j as usize)) by {
            if comp_of@[i] == comp_of@[j] {
                assert(labels@[i] == comp_label[comp_of@[i] as int]);
            }
            if labels@[i] == labels@[j] {
                assert(slot@[labels@[i] as int] == Some(comp_of@[i]));
            }
        }
    }

    // file each touched resource under the component of its first pass
    let ghost passes_of: Seq<Seq<usize>> = Seq::new(comps@.len(), |c: int| comps@[c].passes@);
    let ghost ents = usages.entries();
    let m = usages.len();
    proof {
        assert forall|j: int| 0 <= j < m implies (#[trigger] ents[j]).1.first_pass < n by {
            lemma_sorted_lookup(ents, j);
            assert(usages@.contains_key(ents[j].0));
            assert(usages@[ents[j].0].first_pass < pass_count);
        }
    }
    let mut i: usize = 0;
    while i < m
        invariant
            i <= m,
            m == ents.len(),
            ents == usages.entries(),
            usages.wf(),
            n == pass_count,
            comp_of@.len() == n,
            forall|q: int| 0 <= q < n ==> (#[trigger] comp_of@[q]) < comps@.len(),
            forall|j: int| 0 <= j < m ==> (#[trigger] ents[j]).1.first_pass < n,
            passes_of.len() == comps@.len(),
            forall|c: int| 0 <= c < comps@.len() ==> (#[trigger] comps@[c]).passes@ == passes_of[c],
            forall|c: int| 0 <= c < comps@.len() ==> ids_increasing((#[trigger] comps@[c]).resources@),
            forall|c: int, k: int| 0 <= c < comps@.len() && 0 <= k < comps@[c].resources@.len() ==>
                usages@.contains_key(#[trigger] comps@[c].resources@[k])
                && comp_of@[usages@[comps@[c].resources@[k]].first_pass as int] == c
                && (i < m ==> comps@[c].resources@[k] < ents[i as int].0),
            forall|j: int| 0 <= j < i ==> (#[trigger] comps@[comp_of@[ents[j].1.first_pass as int] as int]).resources@.contains(ents[j].0),
        decreases m - i,
    {
        let id = usages.key_at(i);
        let fp = usages.value_at(i).first_pass;
        let c = comp_of[fp];
        let ghost before = comps@;
        let comp = &mut comps[c];
        comp.resources.push(id);
        proof {
            lemma_sorted_lookup(ents, i as int);
            assert(usages@[id] == ents[i as int].1);
            assert forall|d: int| 0 <= d < comps@.len() && d != c implies comps@[d] == before[d] by {}
            assert forall|c2: int| 0 <= c2 < comps@.len() implies (#[trigger] comps@[c2]).passes@ == passes_of[c2] by {}
            assert forall|c2: int| 0 <= c2 < comps@.len() implies ids_increasing((#[trigger] comps@[c2]).resources@) by {
                if c2 == c {
                    let s = comps@[c2].resources@;
                    assert forall|a: int, b: int| 0 <= a < b < s.len() implies s[a] < s[b] by {
                        assert(s[a] == before[c2].resources@[a]);
                        if b < s.len() - 1 {
                            assert(s[b] == before[c2].resources@[b]);
                        }
                    }
                }
            }
            assert forall|c2: int, k: int| 0 <= c2 < comps@.len() && 0 <= k < comps@[c2].resources@.len() implies
                usages@.contains_key(#[trigger] comps@[c2].resources@[k])
                && comp_of@[usages@[comps@[c2].resources@[k]].first_pass as int] == c2
                && (i + 1 < m ==> comps@[c2].resources@[k] < ents[i + 1].0) by {
                if c2 != c || k < before[c2].resources@.len() {
                    assert(comps@[c2].resources@[k] == before[c2].resources@[k]);
                }
                if i + 1 < m {
                    assert(ents[i as int].0 < ents[i + 1].0);
                }
            }
            assert forall|j: int| 0 <= j < i + 1 implies (#[trigger] comps@[comp_of@[ents[j].1.first_pass as int] as int]).resources@.contains(ents[j].0) by {
                if j < i {
                    let cj = comp_of@[ents[j].1.first_pass as int] as int;
                    let k = choose|k: int| 0 <= k < before[cj].resources@.len() && before[cj].resources@[k] == ents[j].0;
                    assert(comps@[cj].resources@[k] == ents[j].0);
                } else {
                    assert(comps@[c as int].resources@.last() == id);
                }
            }
        }
        i = i + 1;
    }
    proof {
        assert forall|r: u32| #[trigger] usages@.contains_key(r) implies
            comps@[comp_of@[usages@[r].first_pass as int] as int].resources@.contains(r) by {
            let j = choose|j: int| 0 <= j < ents.len() && #[trigger] ents[j].0 == r;
            lemma_sorted_lookup(ents, j);
            assert(comps@[comp_of@[ents[j].1.first_pass as int] as int].resources@.contains(ents[j].0));
        }
    }
    (comps, comp_of)
}

/// Resource `id` is registered as an image the graph creates.
pub open spec fn is_created_image_id(resources: Seq<GraphResourceInfo>, id: u32) -> bool {
    id < resources.len() && resources[id as int].spec_is_created_image()
}

/// The barriers `b` take every touched created image out of the undefined
/// layout into its first access, one each, in increasing resource id order.
pub open spec fn initial_barriers_spec(
    b: Seq<ResourceBarrier>,
    resources: Seq<GraphResourceInfo>,
    usages: Map<u32, ResourceLifetimeUsage>,
) -> bool {
    &&& forall|i: int, j: int| 0 <= i < j < b.len() ==> b[i].resource_id < b[j].resource_id
    &&& forall|i: int| 0 <= i < b.len() ==> {
        let id = (#[trigger] b[i]).resource_id;
        &&& usages.contains_key(id)
        &&& is_created_image_id(resources, id)
        &&& b[i].prev_access == AccessType::Nothing
        &&& b[i].next_access == usages[id].usages@[0].1.access_type
    }
    &&& forall|id: u32| #[trigger] usages.contains_key(id) && is_created_image_id(resources, id) ==>
        exists|i: int| 0 <= i < b.len() && #[trigger] b[i].resource_id == id
}

/// Discard-transitions for created images: their memory is freshly bound, so
/// the first pass that touches one finds it undefined. Imported resources carry
/// their state from outside and are left out.
pub fn initial_barriers(resources: &Vec<GraphResourceInfo>, usages: &IdMap<ResourceLifetimeUsage>) -> (r: Vec<ResourceBarrier>)
    requires
        usages.wf(),
        forall|k: u32| #[trigger] usages@.contains_key(k) ==> usages@[k].usages@.len() > 0,
    ensures
        initial_barriers_spec(r@, resources@, usages@),
{
    let ghost ents = usages.entries();
    let m = usages.len();
    let mut out: Vec<ResourceBarrier> = Vec::new();
    let mut i: usize = 0;
    while i < m
        invariant
            i <= m,
            m == ents.len(),
            ents == usages.entries(),
            usages.wf(),
            forall|k: u32| #[trigger] usages@.contains_key(k) ==> usages@[k].usages@.len() > 0,
            forall|a: int, b: int| 0 <= a < b < out@.len() ==> out@[a].resource_id < out@[b].resource_id,
            forall|a: int| 0 <= a < out@.len() ==> {
                let id = (#[trigger] out@[a]).resource_id;
                &&& usages@.contains_key(id)
                &&& is_created_image_id(resources@, id)
                &&& out@[a].prev_access == AccessType::Nothing
                &&& out@[a].next_access == usages@[id].usages@[0].1.access_type
                &&& (i < m ==> id < ents[i as int].0)
            },
            forall|j: int| 0 <= j < i && is_created_image_id(resources@, #[trigger] ents[j].0) ==>
                exists|a: int| 0 <= a < out@.len() && #[trigger] out@[a].resource_id == ents[j].0,
        decreases m - i,
    {
        let id = usages.key_at(i);
        proof {
            lemma_sorted_lookup(ents, i as int);
            if i + 1 < m {
                assert(ents[i as int].0 < ents[i + 1].0);
            }
        }
        let created_image = (id as usize) < resources.len() && resources[id as usize].is_created_image();
        if created_image {
            let u = usages.value_at(i);
            let first = u.usages[0].1.access_type;
            let ghost before = out@;
            out.push(ResourceBarrier { resource_id: id, prev_access: AccessType::Nothing, next_access: first });
            proof {
                assert forall|j: int| 0 <= j < i + 1 && is_created_image_id(resources@, #[trigger] ents[j].0) implies
                    exists|a: int| 0 <= a < out@.len() && #[trigger] out@[a].resource_id == ents[j].0 by {
                    if j < i {
                        let a = choose|a: int| 0 <= a < before.len() && #[trigger] before[a].resource_id == ents[j].0;
                        assert(out@[a] == before[a]);
                    } else {
                        assert(out@[before.len() as int].resource_id == ents[j].0);
                    }
                }
            }
        } else {
            proof {
                assert(!is_created_image_id(resources@, id));
            }
        }
        i = i + 1;
    }
    proof {
        assert forall|id: u32| #[trigger] usages@.contains_key(id) && is_created_image_id(resources@, id) implies
            exists|i: int| 0 <= i < out@.len() && #[trigger] out@[i].resource_id == id by {
            let j = choose|j: int| 0 <= j < ents.len() && #[trigger] ents[j].0 == id;
            assert(is_created_image_id(resources@, ents[j].0));
        }
    }
    out
}

/// The barriers of the dependency edges `0..k` that end at pass `p`, edge by
/// edge in edge order.
pub open spec fn incoming_upto(
    edges: Seq<(usize, usize)>,
    bars: Seq<Seq<ResourceBarrier>>,
    p: usize,
    k: int,
) -> Seq<ResourceBarrier>
    decreases k,
{
    if k <= 0 {
        Seq::empty()
    } else if edges[k - 1].1 == p {
        incoming_upto(edges, bars, p, k - 1) + bars[k - 1]
    } else {
        incoming_upto(edges, bars, p, k - 1)
    }
}

/// The barriers of each edge of a dependency graph, by edge index.
pub open spec fn edge_barriers(dg: PassDependencyGraph) -> Seq<Seq<ResourceBarrier>> {
    Seq::new(dg.dependencies@.len(), |e: int| dg.dependencies@[e].barriers@)
}

/// Every barrier that must be issued before pass `p` runs: those of all the
/// dependency edges that end at `p`, in edge order.
pub fn incoming_barriers(dg: &PassDependencyGraph, p: usize) -> (r: Vec<ResourceBarrier>)
    requires
        dg.dependencies@.len() == dg.edges().len(),
        dg.edges().len() <= u32::MAX,
    ensures
        r@ == incoming_upto(dg.edges(), edge_barriers(*dg), p, dg.edges().len() as int),
{
    let ghost edges = dg.edges();
    let ghost bars = edge_barriers(*dg);
    let ecount = pass_graph_edge_count(&dg.graph);
    let mut out: Vec<ResourceBarrier> = Vec::new();
    let mut e: usize = 0;
    while e < ecount
        invariant
            e <= ecount,
            ecount == edges.len(),
            edges == dg.edges(),
            bars == edge_barriers(*dg),
            dg.dependencies@.len() == edges.len(),
            edges.len() <= u32::MAX,
            out@ == incoming_upto(edges, bars, p, e as int),
        decreases ecount - e,
    {
        let ab = pass_graph_edge_endpoints(&dg.graph, e);
        let target = match ab {
            Some(x) => x.1,
            None => p,
        };
        proof {
            assert(edges[e as int].1 == target);
        }
        if target == p {
            let bs = &dg.dependencies[e].barriers;
            let ghost start = out@;
            let mut t: usize = 0;
            while t < bs.len()
                invariant
                    t <= bs@.len(),
                    bs@ == bars[e as int],
                    out@ == start + bs@.take(t as int),
                decreases bs@.len() - t,
            {
                out.push(bs[t]);
                proof {
                    assert(start + bs@.take(t + 1) =~= (start + bs@.take(t as int)).push(bs@[t as int]));
                }
                t = t + 1;
            }
            proof {
                assert(bs@.take(bs@.len() as int) =~= bs@);
            }
        }
        e = e + 1;
    }
    out
}

/// One step of the schedule: a pass and the barriers issued before it runs.
#[derive(Debug)]
pub struct ScheduledPass {
    pub pass_id: usize,
    pub barriers: Vec<ResourceBarrier>,
}

/// The pass ids of a schedule, in run order.
pub open spec fn schedule_order(s: Seq<ScheduledPass>) -> Seq<usize> {
    Seq::new(s.len(), |i: int| s[i].pass_id)
}

/// Pair every pass of `order` with the barriers it waits for.
pub fn schedule_passes(dg: &PassDependencyGraph, order: &Vec<usize>) -> (r: Vec<ScheduledPass>)
    requires
        dg.dependencies@.len() == dg.edges().len(),
        dg.edges().len() <= u32::MAX,
    ensures
        schedule_order(r@) == order@,
        forall|i: int| 0 <= i < r@.len() ==> (#[trigger] r@[i]).barriers@
            == incoming_upto(dg.edges(), edge_barriers(*dg), order@[i], dg.edges().len() as int),
{
    let mut out: Vec<ScheduledPass> = Vec::new();
    let mut i: usize = 0;
    while i < order.len()
        invariant
            i <= order@.len(),
            dg.dependencies@.len() == dg.edges().len(),
            dg.edges().len() <= u32::MAX,
            out@.len() == i,
            forall|k: int| 0 <= k < i ==> (#[trigger] out@[k]).pass_id == order@[k],
            forall|k: int| 0 <= k < i ==> (#[trigger] out@[k]).barriers@
                == incoming_upto(dg.edges(), edge_barriers(*dg), order@[k], dg.edges().len() as int),
        decreases order@.len() - i,
    {
        let p = order[i];
        let barriers = incoming_barriers(dg, p);
        out.push(ScheduledPass { pass_id: p, barriers });
        i = i + 1;
    }
    proof {
        assert(schedule_order(out@) =~= order@);
    }
    out
}

/// The edges of the dependency graph of a pass list: `(waited-on, waiting)`
/// pass pairs in order of first occurrence.
pub open spec fn pass_list_edges(passes: Seq<AnyRenderPass>) -> Seq<(usize, usize)> {
    dep_edges(pass_list_deps(passes))
}

/// The barriers of each dependency edge of a pass list, by edge index.
pub open spec fn pass_list_edge_barriers(passes: Seq<AnyRenderPass>) -> Seq<Seq<ResourceBarrier>> {
    Seq::new(pass_list_edges(passes).len(), |e: int| dep_barriers(pass_list_deps(passes), pass_list_edges(passes)[e]))
}

/// Every dependency edge joins two of the passes and runs from the earlier one
/// to the later one, so the dependency graph has no cycle.
pub proof fn lemma_pass_edges_forward(passes: Seq<AnyRenderPass>)
    requires
        passes.len() <= usize::MAX,
    ensures
        edges_forward(pass_list_edges(passes)),
        edges_within(passes.len(), pass_list_edges(passes)),
{
    let ps = pass_accesses(passes);
    let evs = events_of(ps);
    let c = pass_list_deps(passes);
    let e = pass_list_edges(passes);
    lemma_events_sorted(ps, ps.len());
    lemma_dep_edges_forward(evs, evs.len() as int);
    assert forall|j: int| 0 <= j < e.len() implies (#[trigger] e[j]).0 < passes.len() && e[j].1 < passes.len() by {
        lemma_edge_from_dep(c, j);
        let k = choose|k: int| 0 <= k < c.len() && c[k].0 != c[k].1 && (#[trigger] c[k]).0 == e[j].0 && c[k].1 == e[j].1;
        lemma_deps_nondecreasing(evs, evs.len() as int, k);
        let i = choose|i: int| 0 <= i < evs.len() && evs[i].pass == c[k].1;
        lemma_event_pass_bound(ps, ps.len(), i);
    }
}

/// What compiling a render graph hands to the code that records and runs it.
pub struct CompiledGraph {
    /// Lifetime and touches of every resource some pass uses, by resource id.
    pub resource_usages: IdMap<ResourceLifetimeUsage>,
    /// Weakly-connected components of the dependency graph.
    pub components: Vec<PassComponent>,
    /// Index into `components` of the component of each pass.
    pub component_of: Vec<usize>,
    /// Transitions of created images out of the undefined layout, issued first.
    pub init_barriers: Vec<ResourceBarrier>,
    /// The passes in run order, each with the barriers issued before it.
    pub schedule: Vec<ScheduledPass>,
    /// The transition of the swapchain image into presentation, issued after
    /// every pass.
    pub present_barrier: Option<ResourceBarrier>,
}

/// `cg` is the compilation of `passes` over the resource registry `resources`.
pub open spec fn compiled_from(cg: CompiledGraph, passes: Seq<AnyRenderPass>, resources: Seq<GraphResourceInfo>) -> bool {
    let evs = pass_list_events(passes);
    let edges = pass_list_edges(passes);
    &&& cg.resource_usages.wf()
    &&& usages_match(cg.resource_usages@, evs, evs.len() as int)
    &&& components_partition(cg.components@, cg.component_of@, passes.len(), edges)
    &&& components_resources(cg.components@, cg.component_of@, cg.resource_usages@)
    &&& initial_barriers_spec(cg.init_barriers@, resources, cg.resource_usages@)
    &&& is_topo_order(passes.len(), edges, schedule_order(cg.schedule@))
    &&& forall|i: int| 0 <= i < cg.schedule@.len() ==> (#[trigger] cg.schedule@[i]).barriers@
            == incoming_upto(edges, pass_list_edge_barriers(passes), cg.schedule@[i].pass_id, edges.len() as int)
}

/// The schedule of a compiled graph runs conflicting accesses in the order the
/// passes declare them: when two different passes touch the same resource and
/// at least one of the two accesses is a write, the pass of the earlier access
/// comes first in the schedule.
pub proof fn lemma_schedule_orders_conflicting_accesses(
    cg: CompiledGraph,
    passes: Seq<AnyRenderPass>,
    resources: Seq<GraphResourceInfo>,
    i: int,
    j: int,
    a: int,
    b: int,
)
    requires
        compiled_from(cg, passes, resources),
        passes.len() <= usize::MAX,
        0 <= i < j < pass_list_events(passes).len(),
        pass_list_events(passes)[i].res == pass_list_events(passes)[j].res,
        pass_list_events(passes)[i].write || pass_list_events(passes)[j].write,
        pass_list_events(passes)[i].pass != pass_list_events(passes)[j].pass,
        0 <= a < cg.schedule@.len(),
        0 <= b < cg.schedule@.len(),
        cg.schedule@[a].pass_id == pass_list_events(passes)[i].pass,
        cg.schedule@[b].pass_id == pass_list_events(passes)[j].pass,
    ensures
        a < b,
{
    let evs = pass_list_events(passes);
    let order = schedule_order(cg.schedule@);
    lemma_conflicting_accesses_ordered(evs, i, j);
    lemma_pass_edges_forward(passes);
    assert(order[a] == evs[i].pass && order[b] == evs[j].pass);
    lemma_topo_respects_reaches(passes.len(), pass_list_edges(passes), order, evs[i].pass, evs[j].pass, a, b);
}

/// The barrier of a wait between two different passes is among the barriers
/// of that pair of passes.
proof fn lemma_dep_barrier_listed(c: Seq<Dep>, m: int)
    requires
        0 <= m < c.len(),
        c[m].0 != c[m].1,
    ensures
        dep_barriers(c, (c[m].0, c[m].1)).contains(c[m].2),
    decreases c.len(),
{
    let c0 = c.drop_last();
    assert(c =~= c0.push(c.last()));
    lemma_dep_barriers_push(c0, c.last(), (c[m].0, c[m].1));
    if m == c.len() - 1 {
        let b = dep_barriers(c, (c[m].0, c[m].1));
        assert(b[b.len() - 1] == c[m].2);
    } else {
        assert(c0[m] == c[m]);
        lemma_dep_barrier_listed(c0, m);
        let b0 = dep_barriers(c0, (c[m].0, c[m].1));
        let i = choose|i: int| 0 <= i < b0.len() && b0[i] == c[m].2;
        let b = dep_barriers(c, (c[m].0, c[m].1));
        assert(b[i] == c[m].2);
    }
}

/// The barriers of an edge into `p` among the first `k` edges are among the
/// barriers gathered for `p`.
proof fn lemma_incoming_contains(
    edges: Seq<(usize, usize)>,
    bars: Seq<Seq<ResourceBarrier>>,
    p: usize,
    k: int,
    e: int,
    x: ResourceBarrier,
)
    requires
        0 <= e < k <= edges.len(),
        edges[e].1 == p,
        bars[e].contains(x),
    ensures
        incoming_upto(edges, bars, p, k).contains(x),
    decreases k,
{
    let prev = incoming_upto(edges, bars, p, k - 1);
    if e == k - 1 {
        let i = choose|i: int| 0 <= i < bars[e].len() && bars[e][i] == x;
        assert((prev + bars[e])[prev.len() + i] == x);
    } else {
        lemma_incoming_contains(edges, bars, p, k - 1, e, x);
        let i = choose|i: int| 0 <= i < prev.len() && prev[i] == x;
        if edges[k - 1].1 == p {
            assert((prev + bars[k - 1])[i] == x);
        }
    }
}

/// Every wait that the hazard model asks of one pass on another is honoured:
/// the barrier of the wait is among the barriers that the waiting pass's step
/// of the schedule runs before the pass.
pub proof fn lemma_every_wait_gets_its_barrier(
    cg: CompiledGraph,
    passes: Seq<AnyRenderPass>,
    resources: Seq<GraphResourceInfo>,
    m: int,
    s: int,
)
    requires
        compiled_from(cg, passes, resources),
        0 <= m < pass_list_deps(passes).len(),
        pass_list_deps(passes)[m].0 != pass_list_deps(passes)[m].1,
        0 <= s < cg.schedule@.len(),
        cg.schedule@[s].pass_id == pass_list_deps(passes)[m].1,
    ensures
        cg.schedule@[s].barriers@.contains(pass_list_deps(passes)[m].2),
{
    let c = pass_list_deps(passes);
    let edges = pass_list_edges(passes);
    let bars = pass_list_edge_barriers(passes);
    let d = c[m];
    lemma_dep_in_edges(c, m);
    let e = choose|e: int| 0 <= e < edges.len() && #[trigger] edges[e] == (d.0, d.1);
    lemma_dep_barrier_listed(c, m);
    assert(bars[e] == dep_barriers(c, edges[e]));
    lemma_incoming_contains(edges, bars, d.1, edges.len() as int, e, d.2);
}

proof fn lemma_pair_code(n: int, a: int, b: int, c: int, d: int)
    requires
        0 <= a < n,
        0 <= b < n,
        0 <= c < n,
        0 <= d < n,
    ensures
        0 <= a * n + b < n * n,
        a * n + b == c * n + d ==> a == c && b == d,
{
    assert(0 <= a * n + b < n * n) by (nonlinear_arith)
        requires
            0 <= a < n,
            0 <= b < n,
    ;
    if a < c {
        assert(a * n + b < c * n + d) by (nonlinear_arith)
            requires
                0 <= a < c,
                0 <= b < n,
                0 <= d,
        ;
    } else if c < a {
        assert(c * n + d < a * n + b) by (nonlinear_arith)
            requires
                0 <= c < a,
                0 <= d < n,
                0 <= b,
        ;
    }
}

/// A list of distinct edges between `n` nodes has at most `n * n` entries.
pub proof fn lemma_distinct_edges_bound(n: nat, edges: Seq<(usize, usize)>)
    requires
        edges_within(n, edges),
        forall|i: int, j: int| 0 <= i < j < edges.len() ==> edges[i] != edges[j],
    ensures
        edges.len() <= n * n,
{
    let f = |p: (usize, usize)| p.0 as int * n + p.1 as int;
    let t = edges.map_values(f);
    assert forall|i: int, j: int| 0 <= i < t.len() && 0 <= j < t.len() && i != j implies t[i] != t[j] by {
        lemma_pair_code(n as int, edges[i].0 as int, edges[i].1 as int, edges[j].0 as int, edges[j].1 as int);
        if i < j {
            assert(edges[i] != edges[j]);
        } else {
            assert(edges[j] != edges[i]);
        }
    }
    assert(t.no_duplicates());
    t.unique_seq_to_set();
    assert forall|x: int| t.to_set().contains(x) implies vstd::set_lib::set_int_range(0, (n * n) as int).contains(x) by {
        let i = choose|i: int| 0 <= i < t.len() && t[i] == x;
        lemma_pair_code(n as int, edges[i].0 as int, edges[i].1 as int, 0, 0);
    }
    vstd::set_lib::lemma_int_range(0, (n * n) as int);
    vstd::set_lib::lemma_len_subset(t.to_set(), vstd::set_lib::set_int_range(0, (n * n) as int));
}

/// A pass list short enough that the square of its length fits a `u32`
/// meets the limits of the pass graph, so it compiles.
pub proof fn lemma_small_pass_lists_compile(passes: Seq<AnyRenderPass>)
    requires
        passes.len() * passes.len() < u32::MAX,
    ensures
        compilable(passes),
{
    let n = passes.len();
    assert(n < 0x1_0000) by (nonlinear_arith)
        requires
            n * n < u32::MAX,
    ;
    lemma_pass_edges_forward(passes);
    lemma_dep_edges_distinct(pass_list_deps(passes));
    lemma_distinct_edges_bound(n, pass_list_edges(passes));
}

/// A barrier gathered for `p` from the first `k` edges is a barrier of an
/// edge into `p`.
proof fn lemma_incoming_origin(
    edges: Seq<(usize, usize)>,
    bars: Seq<Seq<ResourceBarrier>>,
    p: usize,
    k: int,
    j: int,
)
    requires
        0 <= k <= edges.len(),
        k <= bars.len(),
        0 <= j < incoming_upto(edges, bars, p, k).len(),
    ensures
        exists|e: int, t: int| 0 <= e < k && edges[e].1 == p && 0 <= t < bars[e].len()
            && #[trigger] bars[e][t] == incoming_upto(edges, bars, p, k)[j],
    decreases k,
{
    let prev = incoming_upto(edges, bars, p, k - 1);
    if edges[k - 1].1 == p {
        if j < prev.len() {
            lemma_incoming_origin(edges, bars, p, k - 1, j);
            assert(incoming_upto(edges, bars, p, k)[j] == prev[j]);
        } else {
            let t = j - prev.len();
            assert(incoming_upto(edges, bars, p, k)[j] == bars[k - 1][t]);
        }
    } else {
        lemma_incoming_origin(edges, bars, p, k - 1, j);
    }
}

/// A barrier listed for a pair of passes is the barrier of a wait between
/// those two different passes.
proof fn lemma_dep_barrier_origin(c: Seq<Dep>, pair: (usize, usize), t: int)
    requires
        0 <= t < dep_barriers(c, pair).len(),
    ensures
        exists|m: int| 0 <= m < c.len() && c[m].0 != c[m].1 && (c[m].0, c[m].1) == pair
            && #[trigger] c[m].2 == dep_barriers(c, pair)[t],
    decreases c.len(),
{
    let c0 = c.drop_last();
    assert(c =~= c0.push(c.last()));
    lemma_dep_barriers_push(c0, c.last(), pair);
    let b0 = dep_barriers(c0, pair);
    if t < b0.len() {
        lemma_dep_barrier_origin(c0, pair, t);
        let m = choose|m: int| 0 <= m < c0.len() && c0[m].0 != c0[m].1 && (c0[m].0, c0[m].1) == pair
            && #[trigger] c0[m].2 == dep_barriers(c0, pair)[t];
        assert(c[m] == c0[m]);
    } else {
        assert(c[c.len() - 1].2 == dep_barriers(c, pair)[t]);
    }
}

/// Every barrier the schedule issues before a pass is the barrier of a wait
/// of that pass on an earlier access of another pass to the same resource,
/// one of the two a write with no write between them, going from the earlier
/// access to the pass's own: the barriers name exactly the accesses they
/// separate.
pub proof fn lemma_every_barrier_names_its_accesses(
    cg: CompiledGraph,
    passes: Seq<AnyRenderPass>,
    resources: Seq<GraphResourceInfo>,
    s: int,
    j: int,
)
    requires
        compiled_from(cg, passes, resources),
        0 <= s < cg.schedule@.len(),
        0 <= j < cg.schedule@[s].barriers@.len(),
    ensures
        exists|i: int, k: int| 0 <= i < k < pass_list_events(passes).len()
            && #[trigger] wait_of(pass_list_events(passes), i, k, (
                pass_list_events(passes)[i].pass,
                cg.schedule@[s].pass_id,
                cg.schedule@[s].barriers@[j],
            ))
            && pass_list_events(passes)[i].pass != cg.schedule@[s].pass_id,
{
    let c = pass_list_deps(passes);
    let evs = pass_list_events(passes);
    let edges = pass_list_edges(passes);
    let bars = pass_list_edge_barriers(passes);
    let p = cg.schedule@[s].pass_id;
    lemma_incoming_origin(edges, bars, p, edges.len() as int, j);
    let (e, t) = choose|e: int, t: int| 0 <= e < edges.len() && edges[e].1 == p && 0 <= t < bars[e].len()
        && #[trigger] bars[e][t] == incoming_upto(edges, bars, p, edges.len() as int)[j];
    assert(bars[e] == dep_barriers(c, edges[e]));
    lemma_dep_barrier_origin(c, edges[e], t);
    let m = choose|m: int| 0 <= m < c.len() && c[m].0 != c[m].1 && (c[m].0, c[m].1) == edges[e]
        && #[trigger] c[m].2 == dep_barriers(c, edges[e])[t];
    lemma_waits_name_earlier_access(evs, evs.len() as int, m);
    let (i, k) = choose|i: int, k: int| 0 <= i < k < evs.len() && #[trigger] wait_of(evs, i, k, c[m]);
    assert(wait_of(evs, i, k, (evs[i].pass, p, cg.schedule@[s].barriers@[j])));
}

} // verus!
