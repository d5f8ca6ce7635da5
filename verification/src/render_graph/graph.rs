//! The render graph: resource registry, pass list and the compile step that
//! derives hazards, barriers, resource lifetimes and the pass schedule.
use vstd::prelude::*;
use crate::render_graph::access::{AccessType, PassResourceAccessType};
use crate::render_graph::id_map::{IdMap, has_key, map_of, keys_sorted, lemma_update_value, lemma_insert_entry};
use crate::render_graph::pass_graph::{
    PassDiGraph, pass_graph_nodes, pass_graph_edges, pass_graph_add_edge, pass_graph_find_edge,
    pass_graph_with_capacity, pass_graph_add_node,
};
use crate::render_graph::hazard::{
    AccessEvent, Dep, PassAccesses, events_of, events_upto, lemma_pass_event_positions, lemma_event_pass_bound, lemma_events_prefix, dep_edges, dep_barriers, deps_upto, step_deps, last_writer, readers_since, usage_list, ref_event, wait_on,
    lemma_dep_edges_push, lemma_dep_barriers_push, lemma_dep_edges_distinct, lemma_deps_prefix, lemma_dep_edges_len_mono,
};
use crate::render_graph::graph_theory::has_edge;
use crate::render_graph::resource::{ResourceRef, Extent3D, GraphResourceDesc, GraphResourceImportInfo, GraphResourceInfo, Handle, ResourceKind};
use crate::render_graph::pass_builder::AnyRenderPass;
use crate::render_graph::error::GraphError;
use crate::error::{ErrorSource, SrError};
use crate::render_graph::compile::{
    CompiledGraph, compiled_from, end_state_spec, collect_end_states, present_barrier, present_barrier_spec, pass_components, initial_barriers,
    schedule_passes, lemma_pass_edges_forward, pass_list_edges, pass_list_edge_barriers, edge_barriers,
};
use crate::render_graph::pass_graph::pass_graph_toposort;
use crate::render_graph::graph_theory::{identity_order, lemma_forward_edges_identity_topo};

verus! {

/// A single transition required before a destination pass can run, derived from
/// a read/write hazard on `resource_id` against an earlier producer or reader.
#[derive(Clone, Copy, Debug)]
pub struct ResourceBarrier {
    pub resource_id: u32,
    pub prev_access: AccessType,
    pub next_access: AccessType,
}

/// Edge weight on the pass dependency graph: all barriers that must be issued
/// before the destination pass runs because of the source pass.
#[derive(Debug)]
pub struct PassDependency {
    pub barriers: Vec<ResourceBarrier>,
}

/// Per-resource lifetime plus the ordered list of `(pass, access)` touches.
/// The lifetime is inclusive: the resource is live from `first_pass` through
/// `last_pass`.
#[derive(Debug)]
pub struct ResourceLifetimeUsage {
    pub first_pass: usize,
    pub last_pass: usize,
    pub usages: Vec<(usize, PassResourceAccessType)>,
}

/// `u` records exactly the touches `l` (which must be non-empty).
pub open spec fn usage_matches(u: ResourceLifetimeUsage, l: Seq<(usize, PassResourceAccessType)>) -> bool {
    &&& l.len() > 0
    &&& u.usages@ == l
    &&& u.first_pass == l[0].0
    &&& u.last_pass == l.last().0
}

/// Add one touch of `res_id` by `pass_id` to the lifetime table: the first touch
/// creates the entry, later ones extend it.
pub fn record_usage(
    usages: &mut IdMap<ResourceLifetimeUsage>,
    res_id: u32,
    pass_id: usize,
    access: PassResourceAccessType,
)
    requires
        old(usages).wf(),
    ensures
        final(usages).wf(),
        final(usages)@.dom() == old(usages)@.dom().insert(res_id),
        forall|k: u32| k != res_id && #[trigger] old(usages)@.contains_key(k) ==> final(usages)@[k] == old(usages)@[k],
        old(usages)@.contains_key(res_id) ==> {
            &&& final(usages)@[res_id].first_pass == old(usages)@[res_id].first_pass
            &&& final(usages)@[res_id].last_pass == pass_id
            &&& final(usages)@[res_id].usages@ == old(usages)@[res_id].usages@.push((pass_id, access))
        },
        !old(usages)@.contains_key(res_id) ==> {
            &&& final(usages)@[res_id].first_pass == pass_id
            &&& final(usages)@[res_id].last_pass == pass_id
            &&& final(usages)@[res_id].usages@ == seq![(pass_id, access)]
        },
{
    let ghost s0 = usages.entries();
    match usages.find(res_id) {
        Some(i) => {
            proof {
                crate::render_graph::id_map::lemma_sorted_lookup(s0, i as int);
            }
            let u = usages.value_at_mut(i);
            u.last_pass = pass_id;
            u.usages.push((pass_id, access));
            proof {
                let s1 = usages.entries();
                lemma_update_value(s0, i as int, s1[i as int].1);
            }
        }
        None => {
            let mut v = Vec::new();
            v.push((pass_id, access));
            let fresh = ResourceLifetimeUsage { first_pass: pass_id, last_pass: pass_id, usages: v };
            let pos = usages.insert_new(res_id, fresh);
            proof {
                lemma_insert_entry(s0, pos as int, res_id, usages.entries()[pos as int].1);
                assert(usages.entries() == s0.insert(pos as int, (res_id, usages.entries()[pos as int].1)));
            }
        }
    }
}

/// The pass dependency graph: a `petgraph` digraph whose node `i` is pass `i`,
/// with the barriers of each edge kept beside it, by edge index.
pub struct PassDependencyGraph {
    pub graph: PassDiGraph,
    pub dependencies: Vec<PassDependency>,
}

impl PassDependencyGraph {
    pub open spec fn edges(&self) -> Seq<(usize, usize)> {
        pass_graph_edges(self.graph)
    }

    pub open spec fn node_count(&self) -> nat {
        pass_graph_nodes(self.graph).len()
    }

    /// The graph holds the `n` passes and exactly the dependencies that the
    /// waits `c` ask for.
    pub open spec fn built_from(&self, n: nat, c: Seq<Dep>) -> bool {
        &&& pass_graph_nodes(self.graph) == Seq::new(n, |i: int| i as usize)
        &&& n < u32::MAX
        &&& self.edges() == dep_edges(c)
        &&& self.dependencies@.len() == self.edges().len()
        &&& forall|e: int| 0 <= e < self.edges().len() ==> (#[trigger] self.dependencies@[e]).barriers@ == dep_barriers(c, self.edges()[e])
        &&& forall|k: int| 0 <= k < c.len() ==> (#[trigger] c[k]).0 < n && c[k].1 < n
    }

    /// Record that pass `dst` waits on pass `src` with `barrier`. A pass that
    /// reads then writes its own resource would wait on itself; that hazard is
    /// already serialized by the pass, so it adds nothing.
    pub(crate) fn add_dep_edge(&mut self, src: usize, dst: usize, barrier: ResourceBarrier, Ghost(c): Ghost<Seq<Dep>>)
        requires
            old(self).built_from(old(self).node_count(), c),
            src < old(self).node_count(),
            dst < old(self).node_count(),
            dep_edges(c.push((src, dst, barrier))).len() < u32::MAX,
        ensures
            final(self).built_from(old(self).node_count(), c.push((src, dst, barrier))),
    {
        let ghost n = self.node_count();
        let ghost x: Dep = (src, dst, barrier);
        proof {
            lemma_dep_edges_push(c, x);
            assert forall|p: (usize, usize)| #[trigger] dep_barriers(c.push(x), p) == (if x.0 != x.1 && (x.0, x.1) == p {
                dep_barriers(c, p).push(x.2)
            } else {
                dep_barriers(c, p)
            }) by {
                lemma_dep_barriers_push(c, x, p);
            }
            assert forall|k: int| 0 <= k < c.push(x).len() implies (#[trigger] c.push(x)[k]).0 < n && c.push(x)[k].1 < n by {
                if k < c.len() {
                    assert(c.push(x)[k] == c[k]);
                }
            }
        }
        if src == dst {
            return;
        }
        match pass_graph_find_edge(&self.graph, src, dst) {
            Some(e) => {
                proof {
                    lemma_dep_edges_distinct(c);
                    assert(has_edge(dep_edges(c), src, dst));
                }
                let dep = &mut self.dependencies[e];
                dep.barriers.push(barrier);
                proof {
                    let edges = self.edges();
                    assert forall|f: int| 0 <= f < edges.len() implies (#[trigger] self.dependencies@[f]).barriers@ == dep_barriers(c.push(x), edges[f]) by {
                        if f != e {
                            assert(edges[f] != edges[e as int]);
                        }
                    }
                }
            }
            None => {
                let e = pass_graph_add_edge(&mut self.graph, src, dst);
                let mut barriers = Vec::new();
                barriers.push(barrier);
                self.dependencies.push(PassDependency { barriers });
                proof {
                    let edges = self.edges();
                    assert(edges == dep_edges(c).push((src, dst)));
                    assert forall|f: int| 0 <= f < edges.len() implies (#[trigger] self.dependencies@[f]).barriers@ == dep_barriers(c.push(x), edges[f]) by {
                        if f < e {
                            assert(edges[f] != (src, dst));
                            assert(edges[f] == dep_edges(c)[f]);
                        } else {
                            assert(dep_barriers(c, (src, dst)) =~= Seq::<ResourceBarrier>::empty()) by {
                                lemma_no_barriers_without_edge(c, (src, dst));
                            }
                        }
                    }
                }
            }
        }
    }
}

/// A pair with no edge has no barriers.
proof fn lemma_no_barriers_without_edge(c: Seq<Dep>, p: (usize, usize))
    requires
        !has_edge(dep_edges(c), p.0, p.1),
    ensures
        dep_barriers(c, p).len() == 0,
    decreases c.len(),
{
    if c.len() > 0 {
        let c0 = c.drop_last();
        assert(c =~= c0.push(c.last()));
        lemma_dep_edges_push(c0, c.last());
        lemma_dep_barriers_push(c0, c.last(), p);
        let x = c.last();
        if has_edge(dep_edges(c0), p.0, p.1) {
            let k = choose|k: int| 0 <= k < dep_edges(c0).len() && #[trigger] dep_edges(c0)[k] == (p.0, p.1);
            if !(x.0 == x.1 || has_edge(dep_edges(c0), x.0, x.1)) {
                assert(dep_edges(c)[k] == (p.0, p.1));
            } else {
                assert(dep_edges(c)[k] == (p.0, p.1));
            }
        }
        lemma_no_barriers_without_edge(c0, p);
        if x.0 != x.1 && (x.0, x.1) == p {
            if !has_edge(dep_edges(c0), x.0, x.1) {
                assert(dep_edges(c)[dep_edges(c0).len() as int] == (p.0, p.1));
            }
        }
    }
}

/// Hazard-tracking state of one resource while scanning the passes in order.
#[derive(Debug)]
pub struct ResourceHazardState {
    pub last_writer: Option<(usize, AccessType)>,
    pub readers_since_write: Vec<(usize, AccessType)>,
}

/// The tracked state of `r` is what the hazard model says after `n` events
/// (an untracked resource has no writer and no readers yet).
pub open spec fn hazard_state_ok(h: Map<u32, ResourceHazardState>, evs: Seq<AccessEvent>, n: int, r: u32) -> bool {
    if h.contains_key(r) {
        &&& h[r].last_writer == last_writer(evs, n, r)
        &&& h[r].readers_since_write@ == readers_since(evs, n, r)
    } else {
        &&& last_writer(evs, n, r) is None
        &&& readers_since(evs, n, r).len() == 0
    }
}

pub open spec fn hazards_match(h: Map<u32, ResourceHazardState>, evs: Seq<AccessEvent>, n: int) -> bool {
    forall|r: u32| #[trigger] hazard_state_ok(h, evs, n, r)
}

/// The lifetime table records exactly the touches of the first `n` events.
pub open spec fn usage_ok(u: Map<u32, ResourceLifetimeUsage>, evs: Seq<AccessEvent>, n: int, r: u32) -> bool {
    &&& u.contains_key(r) == (usage_list(evs, n, r).len() > 0)
    &&& u.contains_key(r) ==> usage_matches(u[r], usage_list(evs, n, r))
}

pub open spec fn usages_match(u: Map<u32, ResourceLifetimeUsage>, evs: Seq<AccessEvent>, n: int) -> bool {
    forall|r: u32| #[trigger] usage_ok(u, evs, n, r)
}

/// Position of the hazard state of `id`, adding a fresh (empty) state when the
/// resource is not tracked yet.
fn hazard_slot(hazards: &mut IdMap<ResourceHazardState>, id: u32) -> (i: usize)
    requires
        old(hazards).wf(),
    ensures
        final(hazards).wf(),
        i < final(hazards).entries().len(),
        final(hazards).entries()[i as int].0 == id,
        final(hazards)@.dom() == old(hazards)@.dom().insert(id),
        forall|k: u32| #[trigger] old(hazards)@.contains_key(k) ==> final(hazards)@[k] == old(hazards)@[k],
        !old(hazards)@.contains_key(id) ==> final(hazards)@[id].last_writer is None
            && final(hazards)@[id].readers_since_write@.len() == 0,
{
    let ghost s0 = hazards.entries();
    match hazards.find(id) {
        Some(i) => {
            proof {
                crate::render_graph::id_map::lemma_sorted_lookup(s0, i as int);
                assert(hazards@.dom() =~= old(hazards)@.dom().insert(id));
            }
            i
        },
        None => {
            let fresh = ResourceHazardState { last_writer: None, readers_since_write: Vec::new() };
            let pos = hazards.insert_new(id, fresh);
            proof {
                let v = hazards.entries()[pos as int].1;
                assert(hazards.entries() == s0.insert(pos as int, (id, v)));
                lemma_insert_entry(s0, pos as int, id, v);
            }
            pos
        },
    }
}

/// Take one access event into the scan: record the touch, add the waits the
/// hazard model asks for, and advance the resource's hazard state.
fn scan_access(
    usages: &mut IdMap<ResourceLifetimeUsage>,
    hazards: &mut IdMap<ResourceHazardState>,
    dg: &mut PassDependencyGraph,
    pass_id: usize,
    rref: &ResourceRef,
    write: bool,
    Ghost(evs): Ghost<Seq<AccessEvent>>,
    Ghost(n): Ghost<int>,
)
    requires
        0 <= n < evs.len(),
        evs[n] == ref_event(pass_id, write, *rref),
        forall|i: int| 0 <= i < evs.len() ==> (#[trigger] evs[i]).pass < old(dg).node_count(),
        old(usages).wf(),
        old(hazards).wf(),
        usages_match(old(usages)@, evs, n),
        hazards_match(old(hazards)@, evs, n),
        old(dg).built_from(old(dg).node_count(), deps_upto(evs, n)),
        dep_edges(deps_upto(evs, evs.len() as int)).len() < u32::MAX,
    ensures
        final(usages).wf(),
        final(hazards).wf(),
        usages_match(final(usages)@, evs, n + 1),
        hazards_match(final(hazards)@, evs, n + 1),
        final(dg).node_count() == old(dg).node_count(),
        final(dg).built_from(old(dg).node_count(), deps_upto(evs, n + 1)),
{
    let ghost nn = dg.node_count();
    let ghost e = evs[n];
    let ghost c0 = deps_upto(evs, n);
    let ghost step = step_deps(evs, n);
    let ghost u0 = usages@;
    let ghost h0 = hazards@;
    let id = rref.id;
    let access_type = rref.access.access_type;
    proof {
        assert(deps_upto(evs, n + 1) == c0 + step);
        lemma_deps_prefix(evs, n + 1, evs.len() as int);
        assert(hazard_state_ok(h0, evs, n, id));
    }

    // lifetime table
    record_usage(usages, id, pass_id, rref.access);
    proof {
        assert forall|r: u32| #[trigger] usage_ok(usages@, evs, n + 1, r) by {
            assert(usage_ok(u0, evs, n, r));
            if r == id {
                let l0 = usage_list(evs, n, r);
                let l1 = usage_list(evs, n + 1, r);
                assert(l1 == l0.push((pass_id, rref.access)));
                if l0.len() > 0 {
                    assert(l1[0] == l0[0]);
                } else {
                    assert(l1 =~= seq![(pass_id, rref.access)]);
                }
            } else {
                assert(usage_list(evs, n + 1, r) == usage_list(evs, n, r));
            }
        }
    }

    // waits
    let i = hazard_slot(hazards, id);
    let ghost h1 = hazards@;
    proof {
        crate::render_graph::id_map::lemma_sorted_lookup(hazards.entries(), i as int);
        assert(hazards.entries()[i as int].1 == h1[id]);
        assert(h1[id].last_writer == last_writer(evs, n, id));
        assert(h1[id].readers_since_write@ == readers_since(evs, n, id));
    }
    let nreaders = hazards.value_at(i).readers_since_write.len();
    if write && nreaders > 0 {
        let ghost rs = readers_since(evs, n, id);
        assert(step == rs.map_values(|x: (usize, AccessType)| wait_on(x, e)));
        proof {
            crate::render_graph::hazard::lemma_waits_within(evs, n, id, nn);
        }
        let mut t: usize = 0;
        while t < nreaders
            invariant
                0 <= t <= nreaders,
                nreaders == rs.len(),
                hazards.wf(),
                i < hazards.entries().len(),
                hazards.entries()[i as int].1.readers_since_write@ == rs,
                hazards@ == h1,
                hazards.entries()[i as int].0 == id,
                step == rs.map_values(|x: (usize, AccessType)| wait_on(x, e)),
                e == ref_event(pass_id, write, *rref),
                id == rref.id,
                access_type == rref.access.access_type,
                dg.node_count() == nn,
                dg.built_from(nn, c0 + step.take(t as int)),
                pass_id < nn,
                forall|k: int| 0 <= k < rs.len() ==> (#[trigger] rs[k]).0 < nn,
                (c0 + step).is_prefix_of(deps_upto(evs, evs.len() as int)),
                dep_edges(deps_upto(evs, evs.len() as int)).len() < u32::MAX,
            decreases nreaders - t,
        {
            let (r_pass, r_access) = hazards.value_at(i).readers_since_write[t];
            let ghost before = c0 + step.take(t as int);
            proof {
                assert(step[t as int] == wait_on(rs[t as int], e));
                assert(rs[t as int] == (r_pass, r_access));
                assert(step[t as int] == (r_pass, pass_id, ResourceBarrier { resource_id: id, prev_access: r_access, next_access: access_type }));
                assert(before.push(step[t as int]) =~= c0 + step.take(t + 1));
                crate::render_graph::hazard::lemma_take_prefix(c0, step, deps_upto(evs, evs.len() as int), t + 1);
                lemma_dep_edges_len_mono(c0 + step.take(t + 1), deps_upto(evs, evs.len() as int));
            }
            dg.add_dep_edge(r_pass, pass_id, ResourceBarrier { resource_id: id, prev_access: r_access, next_access: access_type }, Ghost(before));
            t = t + 1;
        }
        proof {
            assert(c0 + step.take(nreaders as int) =~= c0 + step);
        }
    } else {
        let lw = hazards.value_at(i).last_writer;
        match lw {
            Some((w_pass, w_access)) => {
                proof {
                    assert(step == seq![wait_on((w_pass, w_access), e)]);
                    assert(c0.push(step[0]) =~= c0 + step);
                    lemma_dep_edges_len_mono(c0 + step, deps_upto(evs, evs.len() as int));
                    crate::render_graph::hazard::lemma_waits_within(evs, n, id, nn);
                }
                dg.add_dep_edge(w_pass, pass_id, ResourceBarrier { resource_id: id, prev_access: w_access, next_access: access_type }, Ghost(c0));
            },
            None => {
                proof {
                    assert(c0 + step =~= c0);
                }
            },
        }
    }

    // hazard state
    let ghost s_before = hazards.entries();
    let st = hazards.value_at_mut(i);
    if write {
        st.last_writer = Some((pass_id, access_type));
        st.readers_since_write.clear();
    } else {
        st.readers_since_write.push((pass_id, access_type));
    }
    proof {
        let s_after = hazards.entries();
        lemma_update_value(s_before, i as int, s_after[i as int].1);
        assert(s_after == s_before.update(i as int, (s_before[i as int].0, s_after[i as int].1)));
        crate::render_graph::id_map::lemma_sorted_lookup(s_after, i as int);
        assert forall|r: u32| #[trigger] hazard_state_ok(hazards@, evs, n + 1, r) by {
            assert(hazard_state_ok(h0, evs, n, r));
            if r == id {
                assert(hazards@[id] == s_after[i as int].1);
            } else {
                assert(last_writer(evs, n + 1, r) == last_writer(evs, n, r));
                assert(readers_since(evs, n + 1, r) == readers_since(evs, n, r));
                if h0.contains_key(r) {
                    assert(h1[r] == h0[r]);
                }
            }
        }
    }
}

/// The declared reads and writes of each pass, in pass order.
pub open spec fn pass_accesses(passes: Seq<AnyRenderPass>) -> Seq<PassAccesses> {
    passes.map_values(|p: AnyRenderPass| (p.spec_common().read@, p.spec_common().write@))
}

/// All access events of a pass list.
pub open spec fn pass_list_events(passes: Seq<AnyRenderPass>) -> Seq<AccessEvent> {
    events_of(pass_accesses(passes))
}

/// The waits the hazard model asks for over a whole pass list.
pub open spec fn pass_list_deps(passes: Seq<AnyRenderPass>) -> Seq<Dep> {
    deps_upto(pass_list_events(passes), pass_list_events(passes).len() as int)
}

/// What compiling needs of a pass list beyond machine limits of the pass graph:
/// pass and edge counts that fit its `u32` indices.
pub open spec fn compilable(passes: Seq<AnyRenderPass>) -> bool {
    &&& passes.len() < u32::MAX
    &&& passes.len() * 2 <= usize::MAX
    &&& dep_edges(pass_list_deps(passes)).len() < u32::MAX
}

/// Scan the passes in order: build the lifetime table of every touched
/// resource and the dependency graph of the hazards between passes.
pub fn scan_passes(passes: &Vec<AnyRenderPass>) -> (r: (IdMap<ResourceLifetimeUsage>, PassDependencyGraph))
    requires
        compilable(passes@),
    ensures
        r.0.wf(),
        usages_match(r.0@, pass_list_events(passes@), pass_list_events(passes@).len() as int),
        r.1.node_count() == passes@.len(),
        r.1.built_from(passes@.len(), pass_list_deps(passes@)),
{
    let ghost ps = pass_accesses(passes@);
    let ghost evs = pass_list_events(passes@);
    let pass_count = passes.len();
    let mut graph = pass_graph_with_capacity(pass_count, pass_count * 2);
    let mut i: usize = 0;
    while i < pass_count
        invariant
            i <= pass_count,
            pass_count < u32::MAX,
            pass_graph_nodes(graph) == Seq::new(i as nat, |k: int| k as usize),
            pass_graph_edges(graph) == Seq::<(usize, usize)>::empty(),
        decreases pass_count - i,
    {
        let _node = pass_graph_add_node(&mut graph, i);
        proof {
            assert(pass_graph_nodes(graph) =~= Seq::new((i + 1) as nat, |k: int| k as usize));
        }
        i = i + 1;
    }
    let mut dg = PassDependencyGraph { graph, dependencies: Vec::new() };
    let mut usages: IdMap<ResourceLifetimeUsage> = IdMap::new();
    let mut hazards: IdMap<ResourceHazardState> = IdMap::new();
    proof {
        assert(dep_edges(deps_upto(evs, 0)) =~= Seq::<(usize, usize)>::empty());
        assert(dg.built_from(pass_count as nat, deps_upto(evs, 0)));
        assert forall|r: u32| #[trigger] usage_ok(usages@, evs, 0, r) by {
            assert(!has_key(usages.entries(), r));
        }
        assert forall|r: u32| #[trigger] hazard_state_ok(hazards@, evs, 0, r) by {
            assert(!has_key(hazards.entries(), r));
        }
        assert forall|k: int| 0 <= k < evs.len() implies (#[trigger] evs[k]).pass < dg.node_count() by {
            lemma_event_pass_bound(ps, ps.len(), k);
        }
    }
    let mut p: usize = 0;
    while p < pass_count
        invariant
            p <= pass_count,
            pass_count == passes@.len(),
            ps == pass_accesses(passes@),
            evs == events_of(ps),
            compilable(passes@),
            dg.node_count() == pass_count,
            forall|k: int| 0 <= k < evs.len() ==> (#[trigger] evs[k]).pass < dg.node_count(),
            usages.wf(),
            hazards.wf(),
            usages_match(usages@, evs, events_upto(ps, p as nat).len() as int),
            hazards_match(hazards@, evs, events_upto(ps, p as nat).len() as int),
            dg.built_from(pass_count as nat, deps_upto(evs, events_upto(ps, p as nat).len() as int)),
        decreases pass_count - p,
    {
        let common = passes[p].common();
        let ghost base = events_upto(ps, p as nat).len() as int;
        proof {
            lemma_pass_event_positions(ps, p as nat);
            assert(ps[p as int] == (common.read@, common.write@));
            lemma_events_prefix(ps, (p + 1) as nat, ps.len());
        }
        let nreads = common.read.len();
        let mut k: usize = 0;
        while k < nreads
            invariant
                k <= nreads,
                nreads == common.read@.len(),
                p < pass_count,
                pass_count == passes@.len(),
                ps == pass_accesses(passes@),
                evs == events_of(ps),
                ps[p as int] == (common.read@, common.write@),
                base == events_upto(ps, p as nat).len(),
                base + common.read@.len() + common.write@.len() <= evs.len(),
                forall|q: int| 0 <= q < ps[p as int].0.len() ==> #[trigger] evs[base + q] == ref_event(p as usize, false, ps[p as int].0[q]),
                compilable(passes@),
                dg.node_count() == pass_count,
                forall|q: int| 0 <= q < evs.len() ==> (#[trigger] evs[q]).pass < dg.node_count(),
                usages.wf(),
                hazards.wf(),
                usages_match(usages@, evs, base + k),
                hazards_match(hazards@, evs, base + k),
                dg.built_from(pass_count as nat, deps_upto(evs, base + k)),
            decreases nreads - k,
        {
            proof {
                assert(evs[base + k] == ref_event(p, false, common.read@[k as int]));
            }
            scan_access(&mut usages, &mut hazards, &mut dg, p, &common.read[k], false, Ghost(evs), Ghost(base + k));
            k = k + 1;
        }
        let nwrites = common.write.len();
        let mut k: usize = 0;
        while k < nwrites
            invariant
                k <= nwrites,
                nwrites == common.write@.len(),
                p < pass_count,
                pass_count == passes@.len(),
                ps == pass_accesses(passes@),
                evs == events_of(ps),
                ps[p as int] == (common.read@, common.write@),
                base == events_upto(ps, p as nat).len(),
                base + common.read@.len() + common.write@.len() <= evs.len(),
                forall|q: int| 0 <= q < ps[p as int].1.len() ==> #[trigger] evs[base + ps[p as int].0.len() + q] == ref_event(p as usize, true, ps[p as int].1[q]),
                compilable(passes@),
                dg.node_count() == pass_count,
                forall|q: int| 0 <= q < evs.len() ==> (#[trigger] evs[q]).pass < dg.node_count(),
                usages.wf(),
                hazards.wf(),
                usages_match(usages@, evs, base + nreads + k),
                hazards_match(hazards@, evs, base + nreads + k),
                dg.built_from(pass_count as nat, deps_upto(evs, base + nreads + k)),
                nreads == common.read@.len(),
            decreases nwrites - k,
        {
            proof {
                assert(ps[p as int].0.len() == nreads);
                assert(evs[base + ps[p as int].0.len() + k] == ref_event(p as usize, true, ps[p as int].1[k as int]));
                assert(evs[base + nreads + k] == ref_event(p, true, common.write@[k as int]));
            }
            scan_access(&mut usages, &mut hazards, &mut dg, p, &common.write[k], true, Ghost(evs), Ghost(base + nreads + k));
            k = k + 1;
        }
        p = p + 1;
    }
    proof {
        assert(events_upto(ps, pass_count as nat) == evs);
    }
    (usages, dg)
}

/// Where a graph resource ends up once the graph's submission completes: the
/// last pass that touched it and the access it is left in.
#[derive(Clone, Copy, Debug)]
pub struct ResourceEndState {
    /// Id of the last pass that touched the resource; `None` if no pass used it.
    pub last_use_pass: Option<usize>,
    /// Access the resource is left in (`Nothing` when never used).
    pub end_access: AccessType,
    /// Created by the graph (transient): its memory is recycled on `reset`.
    pub internal: bool,
}

/// A resource kept once per frame in flight.
pub struct TemporalResource {
    pub frame_of_creation: usize,
    pub ids: [u32; 2],
}

/// The render graph: resources and passes registered for one frame.
pub struct RenderGraph {
    next_pass_id: u32,
    next_resource_id: u32,
    virtual_resources: Vec<GraphResourceInfo>,
    temporal_resources: Vec<TemporalResource>,
    passes: Vec<AnyRenderPass>,
    /// At most one swapchain target per graph.
    swapchain_resource_id: Option<u32>,
    /// End state of every resource, by resource id, as of the last compile.
    resource_end_states: Vec<ResourceEndState>,
}

impl RenderGraph {
    pub closed spec fn spec_next_pass_id(&self) -> u32 {
        self.next_pass_id
    }

    pub closed spec fn spec_resources(&self) -> Seq<GraphResourceInfo> {
        self.virtual_resources@
    }

    pub closed spec fn spec_temporal(&self) -> Seq<TemporalResource> {
        self.temporal_resources@
    }

    pub closed spec fn spec_passes(&self) -> Seq<AnyRenderPass> {
        self.passes@
    }

    pub closed spec fn spec_swapchain_id(&self) -> Option<u32> {
        self.swapchain_resource_id
    }

    pub closed spec fn spec_end_states(&self) -> Seq<ResourceEndState> {
        self.resource_end_states@
    }

    /// Resource ids are handed out in registration order, so a resource's id is
    /// its position in the registry; the swapchain, when imported, is one of them.
    pub closed spec fn wf(&self) -> bool {
        &&& self.next_resource_id == self.virtual_resources@.len()
        &&& match self.swapchain_resource_id {
            Some(id) => id < self.virtual_resources@.len()
                && self.virtual_resources@[id as int] matches GraphResourceInfo::Imported(GraphResourceImportInfo::SwapchainImage { .. }),
            None => true,
        }
    }

    /// Everything but the pass-id counter is unchanged.
    pub open spec fn same_except_pass_id(&self, other: RenderGraph) -> bool {
        &&& self.wf() == other.wf()
        &&& self.spec_resources() == other.spec_resources()
        &&& self.spec_temporal() == other.spec_temporal()
        &&& self.spec_passes() == other.spec_passes()
        &&& self.spec_swapchain_id() == other.spec_swapchain_id()
        &&& self.spec_end_states() == other.spec_end_states()
    }

    /// An empty graph.
    pub fn new() -> (g: Self)
        ensures
            g.wf(),
            g.spec_next_pass_id() == 0,
            g.spec_resources() == Seq::<GraphResourceInfo>::empty(),
            g.spec_temporal() == Seq::<TemporalResource>::empty(),
            g.spec_passes() == Seq::<AnyRenderPass>::empty(),
            g.spec_swapchain_id() == None::<u32>,
            g.spec_end_states() == Seq::<ResourceEndState>::empty(),
    {
        RenderGraph {
            next_pass_id: 0,
            next_resource_id: 0,
            virtual_resources: Vec::new(),
            temporal_resources: Vec::new(),
            passes: Vec::new(),
            swapchain_resource_id: None,
            resource_end_states: Vec::new(),
        }
    }

    /// Clear all per-frame state (passes, resources, swapchain import, end
    /// states) so the graph can be rebuilt for the next frame. Temporal
    /// resources persist.
    pub fn reset(&mut self)
        ensures
            final(self).wf(),
            final(self).spec_next_pass_id() == 0,
            final(self).spec_resources() == Seq::<GraphResourceInfo>::empty(),
            final(self).spec_temporal() == old(self).spec_temporal(),
            final(self).spec_passes() == Seq::<AnyRenderPass>::empty(),
            final(self).spec_swapchain_id() == None::<u32>,
            final(self).spec_end_states() == Seq::<ResourceEndState>::empty(),
    {
        self.next_pass_id = 0;
        self.next_resource_id = 0;
        self.passes.clear();
        self.virtual_resources.clear();
        self.swapchain_resource_id = None;
        self.resource_end_states.clear();
    }

    /// Hand out the next pass id.
    pub fn next_pass_id(&mut self) -> (id: u32)
        requires
            old(self).spec_next_pass_id() < u32::MAX,
        ensures
            id == old(self).spec_next_pass_id(),
            final(self).spec_next_pass_id() == id + 1,
            final(self).same_except_pass_id(*old(self)),
    {
        let id = self.next_pass_id;
        self.next_pass_id = self.next_pass_id + 1;
        id
    }

    /// Register a resource the graph creates; its handle's id is its position
    /// in the registry.
    pub fn create_resource(&mut self, desc: GraphResourceDesc) -> (h: Handle)
        requires
            old(self).wf(),
            old(self).spec_resources().len() < u32::MAX,
        ensures
            final(self).wf(),
            h.id == old(self).spec_resources().len(),
            h.kind == desc.spec_kind(),
            final(self).spec_resources() == old(self).spec_resources().push(GraphResourceInfo::Created(desc)),
            final(self).spec_next_pass_id() == old(self).spec_next_pass_id(),
            final(self).spec_temporal() == old(self).spec_temporal(),
            final(self).spec_passes() == old(self).spec_passes(),
            final(self).spec_swapchain_id() == old(self).spec_swapchain_id(),
            final(self).spec_end_states() == old(self).spec_end_states(),
    {
        let kind = desc.kind();
        self.virtual_resources.push(GraphResourceInfo::Created(desc));
        let id = self.next_resource_id;
        self.next_resource_id = self.next_resource_id + 1;
        Handle { id, kind }
    }

    /// Register one copy of a created resource per frame in flight, and
    /// remember them together as a temporal resource created at `frame_of_creation`.
    pub fn create_temporal_resource(&mut self, desc: GraphResourceDesc, frame_of_creation: usize) -> (hs: [Handle; 2])
        requires
            old(self).wf(),
            old(self).spec_resources().len() + 2 <= u32::MAX,
        ensures
            final(self).wf(),
            hs[0].id == old(self).spec_resources().len(),
            hs[1].id == old(self).spec_resources().len() + 1,
            hs[0].kind == desc.spec_kind(),
            hs[1].kind == desc.spec_kind(),
            final(self).spec_resources() == old(self).spec_resources().push(GraphResourceInfo::Created(desc)).push(GraphResourceInfo::Created(desc)),
            final(self).spec_temporal() == old(self).spec_temporal().push(TemporalResource { frame_of_creation, ids: [hs[0].id, hs[1].id] }),
            final(self).spec_next_pass_id() == old(self).spec_next_pass_id(),
            final(self).spec_passes() == old(self).spec_passes(),
            final(self).spec_swapchain_id() == old(self).spec_swapchain_id(),
            final(self).spec_end_states() == old(self).spec_end_states(),
    {
        let copy = desc.duplicate();
        let h0 = self.create_resource(copy);
        let h1 = self.create_resource(desc);
        self.temporal_resources.push(TemporalResource { frame_of_creation, ids: [h0.id, h1.id] });
        [h0, h1]
    }

    /// Register a resource owned outside the graph.
    pub fn import(&mut self, info: GraphResourceImportInfo) -> (h: Handle)
        requires
            old(self).wf(),
            old(self).spec_resources().len() < u32::MAX,
        ensures
            final(self).wf(),
            h.id == old(self).spec_resources().len(),
            h.kind == info.spec_kind(),
            final(self).spec_resources() == old(self).spec_resources().push(GraphResourceInfo::Imported(info)),
            final(self).spec_next_pass_id() == old(self).spec_next_pass_id(),
            final(self).spec_temporal() == old(self).spec_temporal(),
            final(self).spec_passes() == old(self).spec_passes(),
            final(self).spec_swapchain_id() == old(self).spec_swapchain_id(),
            final(self).spec_end_states() == old(self).spec_end_states(),
    {
        let kind = info.kind();
        self.virtual_resources.push(GraphResourceInfo::Imported(info));
        let id = self.next_resource_id;
        self.next_resource_id = self.next_resource_id + 1;
        Handle { id, kind }
    }

    /// Import the frame's swapchain image, of `extent` and raw Vulkan
    /// `format`, as the present target. Only one may be imported per graph: a
    /// second import is refused and changes nothing. Compiling leaves the
    /// swapchain image, once a pass uses it, ready to present.
    pub fn import_swapchain(&mut self, extent: Extent3D, format: i32) -> (r: Result<Handle, SrError>)
        requires
            old(self).wf(),
            old(self).spec_resources().len() < u32::MAX,
        ensures
            final(self).wf(),
            old(self).spec_swapchain_id() is Some <==> r is Err,
            r matches Err(e) ==> e.spec_source() == Some(ErrorSource::RenderGraph(GraphError::SwapchainAlreadyImported)),
            r is Err ==> final(self).spec_resources() == old(self).spec_resources()
                && final(self).spec_swapchain_id() == old(self).spec_swapchain_id(),
            r matches Ok(h) ==> {
                &&& h.id == old(self).spec_resources().len()
                &&& h.kind == ResourceKind::Image
                &&& final(self).spec_resources() == old(self).spec_resources().push(GraphResourceInfo::Imported(GraphResourceImportInfo::SwapchainImage { extent, format }))
                &&& final(self).spec_swapchain_id() == Some(h.id)
            },
            final(self).spec_next_pass_id() == old(self).spec_next_pass_id(),
            final(self).spec_temporal() == old(self).spec_temporal(),
            final(self).spec_passes() == old(self).spec_passes(),
            final(self).spec_end_states() == old(self).spec_end_states(),
    {
        if self.swapchain_resource_id.is_some() {
            return Err(SrError::new(
                Some(ErrorSource::RenderGraph(GraphError::SwapchainAlreadyImported)),
                "render graph already has a swapchain import".to_string(),
            ));
        }
        let id = self.next_resource_id;
        self.next_resource_id = self.next_resource_id + 1;
        self.virtual_resources.push(GraphResourceInfo::Imported(GraphResourceImportInfo::SwapchainImage { extent, format }));
        self.swapchain_resource_id = Some(id);
        Ok(Handle { id, kind: ResourceKind::Image })
    }

    /// Add a pass; passes are scheduled by their position in this list.
    pub fn add_render_pass(&mut self, render_pass: AnyRenderPass)
        ensures
            final(self).spec_passes() == old(self).spec_passes().push(render_pass),
            final(self).wf() == old(self).wf(),
            final(self).spec_next_pass_id() == old(self).spec_next_pass_id(),
            final(self).spec_resources() == old(self).spec_resources(),
            final(self).spec_temporal() == old(self).spec_temporal(),
            final(self).spec_swapchain_id() == old(self).spec_swapchain_id(),
            final(self).spec_end_states() == old(self).spec_end_states(),
    {
        self.passes.push(render_pass);
    }

    /// Compile the registered passes: scan their accesses into resource
    /// lifetimes and a dependency graph of hazards, record the end state of
    /// every resource, and derive the pass components, the initial transitions
    /// of created images and the pass schedule with the barriers before each
    /// pass. The dependency edges all run forward, so a schedule always exists.
    pub fn compile(&mut self) -> (r: Result<CompiledGraph, SrError>)
        requires
            old(self).wf(),
            compilable(old(self).spec_passes()),
        ensures
            r is Ok,
            r matches Ok(cg) ==> compiled_from(cg, old(self).spec_passes(), old(self).spec_resources()),
            r matches Ok(cg) ==> cg.present_barrier == present_barrier_spec(old(self).spec_swapchain_id(), match old(self).spec_swapchain_id() {
                Some(id) => usage_list(pass_list_events(old(self).spec_passes()), pass_list_events(old(self).spec_passes()).len() as int, id),
                None => Seq::empty(),
            }),
            final(self).wf(),
            final(self).spec_next_pass_id() == old(self).spec_next_pass_id(),
            final(self).spec_resources() == old(self).spec_resources(),
            final(self).spec_temporal() == old(self).spec_temporal(),
            final(self).spec_passes() == old(self).spec_passes(),
            final(self).spec_swapchain_id() == old(self).spec_swapchain_id(),
            final(self).spec_end_states().len() == old(self).spec_resources().len(),
            forall|i: int| 0 <= i < final(self).spec_end_states().len() ==> #[trigger] final(self).spec_end_states()[i]
                == end_state_spec(old(self).spec_resources()[i], usage_list(
                    pass_list_events(old(self).spec_passes()),
                    pass_list_events(old(self).spec_passes()).len() as int,
                    i as u32,
                )),
    {
        let ghost passes = self.passes@;
        let ghost evs = pass_list_events(passes);
        let ghost edges = pass_list_edges(passes);
        let n = self.passes.len();
        let (usages, dg) = scan_passes(&self.passes);
        self.resource_end_states = collect_end_states(&self.virtual_resources, &usages, Ghost(evs));
        proof {
            lemma_pass_edges_forward(passes);
            assert forall|i: int| 0 <= i < evs.len() implies (#[trigger] evs[i]).pass < n by {
                lemma_event_pass_bound(pass_accesses(passes), passes.len(), i);
            }
            assert forall|k: u32| #[trigger] usages@.contains_key(k) implies usages@[k].first_pass < n
                && usages@[k].usages@.len() > 0 by {
                assert(usage_ok(usages@, evs, evs.len() as int, k));
                crate::render_graph::hazard::lemma_usage_list_passes(evs, evs.len() as int, k, n as nat);
            }
        }
        let (components, component_of) = pass_components(&dg, n, &usages);
        let init_barriers = initial_barriers(&self.virtual_resources, &usages);
        let order = match pass_graph_toposort(&dg.graph) {
            Ok(o) => o,
            Err(_) => {
                proof {
                    lemma_forward_edges_identity_topo(n as nat, edges);
                    assert(crate::render_graph::graph_theory::is_topo_order(n as nat, edges, identity_order(n as nat)));
                }
                return Err(SrError::new_custom("render graph dependency graph contains a cycle".to_string()));
            },
        };
        let schedule = schedule_passes(&dg, &order);
        let present = present_barrier(self.swapchain_resource_id, &usages, Ghost(evs));
        proof {
            assert(edge_barriers(dg) =~= pass_list_edge_barriers(passes));
            assert(crate::render_graph::compile::schedule_order(schedule@) == order@);
        }
        Ok(CompiledGraph { resource_usages: usages, components, component_of, init_barriers, schedule, present_barrier: present })
    }

    /// The registered resources, by id.
    pub fn resources(&self) -> (r: &Vec<GraphResourceInfo>)
        ensures
            r@ == self.spec_resources(),
    {
        &self.virtual_resources
    }

    /// The registered passes, in scheduling-id order.
    pub fn passes(&self) -> (r: &Vec<AnyRenderPass>)
        ensures
            r@ == self.spec_passes(),
    {
        &self.passes
    }

    /// The temporal resources registered so far.
    pub fn temporal_resources(&self) -> (r: &Vec<TemporalResource>)
        ensures
            r@ == self.spec_temporal(),
    {
        &self.temporal_resources
    }

    /// Id of the imported swapchain image, if any.
    pub fn swapchain_resource_id(&self) -> (r: Option<u32>)
        ensures
            r == self.spec_swapchain_id(),
    {
        self.swapchain_resource_id
    }

    /// End states of every resource as collected by the last compile, by
    /// resource id (empty after `reset`).
    pub fn resource_end_states(&self) -> (r: &Vec<ResourceEndState>)
        ensures
            r@ == self.spec_end_states(),
    {
        &self.resource_end_states
    }

    /// End state of one resource, if the graph compiled it.
    pub fn end_state(&self, handle: &Handle) -> (r: Option<ResourceEndState>)
        ensures
            (handle.id < self.spec_end_states().len()) == (r is Some),
            r matches Some(s) ==> s == self.spec_end_states()[handle.id as int],
    {
        if (handle.id as usize) < self.resource_end_states.len() {
            Some(self.resource_end_states[handle.id as usize])
        } else {
            None
        }
    }
}

/// A type equal to `Self`, named as an associated type: lets a bound say that
/// two type expressions are the same type.
pub trait TypeEquals: Sized {
    type Other;

    fn same(value: Self) -> Self::Other;
}

impl<T> TypeEquals for T {
    type Other = T;

    fn same(value: T) -> (r: T)
        ensures
            r == value,
    {
        value
    }
}

} // verus!
