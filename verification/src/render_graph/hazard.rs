//! The hazard model of the render graph, stated over the sequence of accesses
//! the passes declare, and the facts about it that the scheduler relies on.
//!
//! Passes are scanned in id order; within a pass its reads come before its
//! writes. Each access may require the pass to wait for earlier passes:
//! a read waits for the last writer of the resource; a write waits for every
//! reader since the last write, or for the last writer when there is no such
//! reader. These waits, minus a pass waiting for itself, are the dependency
//! edges of the graph.
use vstd::prelude::*;
use crate::render_graph::access::{AccessType, PassResourceAccessType};
use crate::render_graph::resource::ResourceRef;
use crate::render_graph::graph::ResourceBarrier;
use crate::render_graph::graph_theory::{has_edge, reaches, edges_forward, lemma_reaches_refl, lemma_reaches_edge, lemma_reaches_trans, lemma_reaches_extend};

verus! {

/// One declared access, flattened out of its pass.
pub struct AccessEvent {
    pub pass: usize,
    pub write: bool,
    pub res: u32,
    pub access: PassResourceAccessType,
}

/// A wait of pass `.1` on pass `.0`, with the barrier it needs.
pub type Dep = (usize, usize, ResourceBarrier);

/// The declared reads and writes of one pass.
pub type PassAccesses = (Seq<ResourceRef>, Seq<ResourceRef>);

pub open spec fn ref_event(p: usize, write: bool, r: ResourceRef) -> AccessEvent {
    AccessEvent { pass: p, write: write, res: r.id, access: r.access }
}

pub open spec fn refs_events(p: usize, write: bool, refs: Seq<ResourceRef>) -> Seq<AccessEvent> {
    refs.map_values(|r: ResourceRef| ref_event(p, write, r))
}

/// The accesses of pass `p`: its reads, then its writes.
pub open spec fn pass_events(p: usize, pass: PassAccesses) -> Seq<AccessEvent> {
    refs_events(p, false, pass.0) + refs_events(p, true, pass.1)
}

/// The accesses of the first `n` passes, in scan order.
pub open spec fn events_upto(passes: Seq<PassAccesses>, n: nat) -> Seq<AccessEvent>
    decreases n,
{
    if n == 0 || n > passes.len() {
        Seq::empty()
    } else {
        events_upto(passes, (n - 1) as nat) + pass_events((n - 1) as usize, passes[n - 1])
    }
}

/// All accesses of all passes, in scan order.
pub open spec fn events_of(passes: Seq<PassAccesses>) -> Seq<AccessEvent> {
    events_upto(passes, passes.len())
}

/// The last write to `r` among the first `n` events: `(pass, access)`.
pub open spec fn last_writer(evs: Seq<AccessEvent>, n: int, r: u32) -> Option<(usize, AccessType)>
    decreases n,
{
    if n <= 0 {
        None
    } else if evs[n - 1].write && evs[n - 1].res == r {
        Some((evs[n - 1].pass, evs[n - 1].access.access_type))
    } else {
        last_writer(evs, n - 1, r)
    }
}

/// The reads of `r` among the first `n` events that follow its last write.
pub open spec fn readers_since(evs: Seq<AccessEvent>, n: int, r: u32) -> Seq<(usize, AccessType)>
    decreases n,
{
    if n <= 0 {
        Seq::empty()
    } else if evs[n - 1].res != r {
        readers_since(evs, n - 1, r)
    } else if evs[n - 1].write {
        Seq::empty()
    } else {
        readers_since(evs, n - 1, r).push((evs[n - 1].pass, evs[n - 1].access.access_type))
    }
}

pub open spec fn wait_on(src: (usize, AccessType), e: AccessEvent) -> Dep {
    (src.0, e.pass, ResourceBarrier { resource_id: e.res, prev_access: src.1, next_access: e.access.access_type })
}

/// The waits the `k`-th event asks for (a pass may be asked to wait for itself).
pub open spec fn step_deps(evs: Seq<AccessEvent>, k: int) -> Seq<Dep> {
    let e = evs[k];
    let rs = readers_since(evs, k, e.res);
    if e.write && rs.len() > 0 {
        rs.map_values(|x: (usize, AccessType)| wait_on(x, e))
    } else {
        match last_writer(evs, k, e.res) {
            Some(w) => seq![wait_on(w, e)],
            None => Seq::empty(),
        }
    }
}

/// The waits asked for by the first `n` events, in order.
pub open spec fn deps_upto(evs: Seq<AccessEvent>, n: int) -> Seq<Dep>
    decreases n,
{
    if n <= 0 {
        Seq::empty()
    } else {
        deps_upto(evs, n - 1) + step_deps(evs, n - 1)
    }
}

/// The distinct `(waited-on, waiting)` pass pairs of the waits, self-waits left
/// out, in order of first occurrence: the edges of the dependency graph.
pub open spec fn dep_edges(c: Seq<Dep>) -> Seq<(usize, usize)>
    decreases c.len(),
{
    if c.len() == 0 {
        Seq::empty()
    } else {
        let prev = dep_edges(c.drop_last());
        let x = c.last();
        if x.0 == x.1 || has_edge(prev, x.0, x.1) {
            prev
        } else {
            prev.push((x.0, x.1))
        }
    }
}

/// The barriers of the waits of pass `pair.1` on pass `pair.0`, in order.
pub open spec fn dep_barriers(c: Seq<Dep>, pair: (usize, usize)) -> Seq<ResourceBarrier>
    decreases c.len(),
{
    if c.len() == 0 {
        Seq::empty()
    } else {
        let prev = dep_barriers(c.drop_last(), pair);
        let x = c.last();
        if x.0 != x.1 && (x.0, x.1) == pair {
            prev.push(x.2)
        } else {
            prev
        }
    }
}

/// The accesses of `r` among the first `n` events: `(pass, access)`, in order.
pub open spec fn usage_list(evs: Seq<AccessEvent>, n: int, r: u32) -> Seq<(usize, PassResourceAccessType)>
    decreases n,
{
    if n <= 0 {
        Seq::empty()
    } else if evs[n - 1].res == r {
        usage_list(evs, n - 1, r).push((evs[n - 1].pass, evs[n - 1].access))
    } else {
        usage_list(evs, n - 1, r)
    }
}

/// Events are grouped by pass in increasing pass order.
pub open spec fn passes_sorted(evs: Seq<AccessEvent>) -> bool {
    forall|i: int, j: int| 0 <= i < j < evs.len() ==> evs[i].pass <= evs[j].pass
}

// ---------------------------------------------------------------------------
// Facts about the model
// ---------------------------------------------------------------------------

pub proof fn lemma_dep_edges_push(c: Seq<Dep>, x: Dep)
    ensures
        dep_edges(c.push(x)) == (if x.0 == x.1 || has_edge(dep_edges(c), x.0, x.1) {
            dep_edges(c)
        } else {
            dep_edges(c).push((x.0, x.1))
        }),
{
    assert(c.push(x).drop_last() =~= c);
}

pub proof fn lemma_dep_barriers_push(c: Seq<Dep>, x: Dep, pair: (usize, usize))
    ensures
        dep_barriers(c.push(x), pair) == (if x.0 != x.1 && (x.0, x.1) == pair {
            dep_barriers(c, pair).push(x.2)
        } else {
            dep_barriers(c, pair)
        }),
{
    assert(c.push(x).drop_last() =~= c);
}

/// The edges of a prefix of the waits are a prefix of the edges of all waits.
pub proof fn lemma_dep_edges_prefix(c: Seq<Dep>, d: Seq<Dep>)
    ensures
        dep_edges(c).is_prefix_of(dep_edges(c + d)),
    decreases d.len(),
{
    if d.len() == 0 {
        assert(c + d =~= c);
    } else {
        let d0 = d.drop_last();
        lemma_dep_edges_prefix(c, d0);
        assert((c + d).drop_last() =~= c + d0);
        assert(c + d =~= (c + d0).push(d.last()));
        lemma_dep_edges_push(c + d0, d.last());
    }
}

/// Every wait between two different passes is an edge.
pub proof fn lemma_dep_in_edges(c: Seq<Dep>, k: int)
    requires
        0 <= k < c.len(),
        c[k].0 != c[k].1,
    ensures
        has_edge(dep_edges(c), c[k].0, c[k].1),
    decreases c.len(),
{
    let c0 = c.drop_last();
    assert(c =~= c0.push(c.last()));
    lemma_dep_edges_push(c0, c.last());
    if k == c.len() - 1 {
        let prev = dep_edges(c0);
        if !has_edge(prev, c[k].0, c[k].1) {
            let e = dep_edges(c);
            assert(e[prev.len() as int] == (c[k].0, c[k].1));
        }
    } else {
        assert(c0[k] == c[k]);
        lemma_dep_in_edges(c0, k);
        let prev = dep_edges(c0);
        let j = choose|j: int| 0 <= j < prev.len() && #[trigger] prev[j] == (c[k].0, c[k].1);
        lemma_dep_edges_prefix(c0, seq![c.last()]);
        assert(c0 + seq![c.last()] =~= c);
        assert(dep_edges(c)[j] == prev[j]);
    }
}

/// Every edge comes from a wait between two different passes.
pub proof fn lemma_edge_from_dep(c: Seq<Dep>, j: int)
    requires
        0 <= j < dep_edges(c).len(),
    ensures
        exists|k: int| 0 <= k < c.len() && c[k].0 != c[k].1 && (#[trigger] c[k]).0 == dep_edges(c)[j].0 && c[k].1 == dep_edges(c)[j].1,
    decreases c.len(),
{
    let c0 = c.drop_last();
    assert(c =~= c0.push(c.last()));
    lemma_dep_edges_push(c0, c.last());
    let prev = dep_edges(c0);
    if j < prev.len() {
        assert(dep_edges(c)[j] == prev[j]);
        lemma_edge_from_dep(c0, j);
        let k = choose|k: int| 0 <= k < c0.len() && c0[k].0 != c0[k].1 && (#[trigger] c0[k]).0 == prev[j].0 && c0[k].1 == prev[j].1;
        assert(c[k] == c0[k]);
    } else {
        let k = c.len() - 1;
        assert(c[k] == c.last());
    }
}

/// The edges have no duplicates.
pub proof fn lemma_dep_edges_distinct(c: Seq<Dep>)
    ensures
        forall|i: int, j: int| 0 <= i < j < dep_edges(c).len() ==> dep_edges(c)[i] != dep_edges(c)[j],
    decreases c.len(),
{
    if c.len() > 0 {
        let c0 = c.drop_last();
        assert(c =~= c0.push(c.last()));
        lemma_dep_edges_push(c0, c.last());
        lemma_dep_edges_distinct(c0);
        let prev = dep_edges(c0);
        let e = dep_edges(c);
        assert forall|i: int, j: int| 0 <= i < j < e.len() implies e[i] != e[j] by {
            if j == prev.len() {
                assert(e[i] == prev[i]);
                if e[i] == e[j] {
                    assert(prev[i] == (c.last().0, c.last().1));
                }
            } else {
                assert(e[i] == prev[i] && e[j] == prev[j]);
            }
        }
    }
}

/// A reader recorded since the last write happened before event `n`.
proof fn lemma_readers_since_earlier(evs: Seq<AccessEvent>, n: int, r: u32, t: int)
    requires
        0 <= n <= evs.len(),
        0 <= t < readers_since(evs, n, r).len(),
    ensures
        exists|i: int| 0 <= i < n && evs[i].res == r && !evs[i].write && #[trigger] evs[i].pass == readers_since(evs, n, r)[t].0,
    decreases n,
{
    if n > 0 {
        if evs[n - 1].res != r {
            lemma_readers_since_earlier(evs, n - 1, r, t);
        } else if evs[n - 1].write {
        } else {
            let prev = readers_since(evs, n - 1, r);
            if t < prev.len() {
                lemma_readers_since_earlier(evs, n - 1, r, t);
            } else {
                assert(evs[n - 1].pass == readers_since(evs, n, r)[t].0);
            }
        }
    }
}

/// The last writer happened before event `n`.
proof fn lemma_last_writer_earlier(evs: Seq<AccessEvent>, n: int, r: u32)
    requires
        0 <= n <= evs.len(),
        last_writer(evs, n, r) is Some,
    ensures
        exists|i: int| 0 <= i < n && evs[i].res == r && evs[i].write && #[trigger] evs[i].pass == last_writer(evs, n, r).unwrap().0,
    decreases n,
{
    if !(evs[n - 1].write && evs[n - 1].res == r) {
        lemma_last_writer_earlier(evs, n - 1, r);
    } else {
        assert(evs[n - 1].pass == last_writer(evs, n, r).unwrap().0);
    }
}

/// Every wait goes from an earlier-or-same pass to a later-or-same pass.
pub proof fn lemma_deps_nondecreasing(evs: Seq<AccessEvent>, n: int, k: int)
    requires
        passes_sorted(evs),
        0 <= n <= evs.len(),
        0 <= k < deps_upto(evs, n).len(),
    ensures
        deps_upto(evs, n)[k].0 <= deps_upto(evs, n)[k].1,
        exists|i: int| 0 <= i < n && evs[i].pass == deps_upto(evs, n)[k].1,
    decreases n,
{
    let prev = deps_upto(evs, n - 1);
    let s = step_deps(evs, n - 1);
    assert(deps_upto(evs, n) == prev + s);
    if k < prev.len() {
        lemma_deps_nondecreasing(evs, n - 1, k);
        assert(deps_upto(evs, n)[k] == prev[k]);
    } else {
        let t = k - prev.len();
        assert(deps_upto(evs, n)[k] == s[t]);
        let e = evs[n - 1];
        let rs = readers_since(evs, n - 1, e.res);
        if e.write && rs.len() > 0 {
            assert(s[t] == wait_on(rs[t], e));
            lemma_readers_since_earlier(evs, n - 1, e.res, t);
        } else {
            lemma_last_writer_earlier(evs, n - 1, e.res);
        }
        assert(evs[n - 1].pass == s[t].1);
    }
}

/// The dependency edges all go from a lower pass to a higher pass.
pub proof fn lemma_dep_edges_forward(evs: Seq<AccessEvent>, n: int)
    requires
        passes_sorted(evs),
        0 <= n <= evs.len(),
    ensures
        edges_forward(dep_edges(deps_upto(evs, n))),
{
    let c = deps_upto(evs, n);
    let e = dep_edges(c);
    assert forall|j: int| 0 <= j < e.len() implies (#[trigger] e[j]).0 < e[j].1 by {
        lemma_edge_from_dep(c, j);
        let k = choose|k: int| 0 <= k < c.len() && c[k].0 != c[k].1 && (#[trigger] c[k]).0 == e[j].0 && c[k].1 == e[j].1;
        lemma_deps_nondecreasing(evs, n, k);
    }
}

/// The dependency edges after the first `n` events.
pub open spec fn edges_after(evs: Seq<AccessEvent>, n: int) -> Seq<(usize, usize)> {
    dep_edges(deps_upto(evs, n))
}

pub open spec fn rs_has(rs: Seq<(usize, AccessType)>, p: usize) -> bool {
    exists|t: int| 0 <= t < rs.len() && #[trigger] rs[t].0 == p
}

/// What the scan knows about resource `r` after `n` events: every earlier
/// access of `r` can reach the last writer, or is a read since that write (and
/// then the last writer reaches it).
pub open spec fn hazard_inv(evs: Seq<AccessEvent>, n: int, r: u32) -> bool {
    let e = edges_after(evs, n);
    let rs = readers_since(evs, n, r);
    &&& forall|i: int|
        #![trigger evs[i]]
        0 <= i < n && evs[i].res == r ==> match last_writer(evs, n, r) {
            Some(w) => reaches(e, evs[i].pass, w.0) || (!evs[i].write && rs_has(rs, evs[i].pass)),
            None => !evs[i].write && rs_has(rs, evs[i].pass),
        }
    &&& forall|t: int|
        #![trigger rs[t]]
        0 <= t < rs.len() ==> match last_writer(evs, n, r) {
            Some(w) => reaches(e, w.0, rs[t].0),
            None => true,
        }
}

proof fn lemma_reach_grow(evs: Seq<AccessEvent>, n: int, m: int, a: usize, b: usize)
    requires
        0 <= n <= m,
        reaches(edges_after(evs, n), a, b),
    ensures
        reaches(edges_after(evs, m), a, b),
    decreases m - n,
{
    if n < m {
        let c = deps_upto(evs, n);
        let d = step_deps(evs, n);
        assert(deps_upto(evs, n + 1) == c + d);
        lemma_dep_edges_prefix(c, d);
        let e0 = dep_edges(c);
        let e1 = dep_edges(c + d);
        assert(e1 =~= e0 + e1.skip(e0.len() as int));
        lemma_reaches_extend(e0, e1.skip(e0.len() as int), a, b);
        lemma_reach_grow(evs, n + 1, m, a, b);
    }
}

proof fn lemma_step_reach(evs: Seq<AccessEvent>, n: int, t: int)
    requires
        0 <= n,
        0 <= t < step_deps(evs, n).len(),
    ensures
        reaches(edges_after(evs, n + 1), step_deps(evs, n)[t].0, step_deps(evs, n)[t].1),
{
    let c = deps_upto(evs, n);
    let d = step_deps(evs, n);
    let all = deps_upto(evs, n + 1);
    assert(all == c + d);
    let k = c.len() + t;
    assert(all[k] == d[t]);
    if d[t].0 == d[t].1 {
        lemma_reaches_refl(edges_after(evs, n + 1), d[t].0);
    } else {
        lemma_dep_in_edges(all, k);
        lemma_reaches_edge(edges_after(evs, n + 1), d[t].0, d[t].1);
    }
}

proof fn lemma_hazard_start(evs: Seq<AccessEvent>, r: u32)
    ensures
        hazard_inv(evs, 0, r),
{
}

proof fn lemma_hazard_step(evs: Seq<AccessEvent>, n: int, r: u32)
    requires
        0 <= n < evs.len(),
        hazard_inv(evs, n, r),
    ensures
        hazard_inv(evs, n + 1, r),
        evs[n].res == r && evs[n].write ==> forall|i: int|
            0 <= i < n && #[trigger] evs[i].res == r ==> reaches(edges_after(evs, n + 1), evs[i].pass, evs[n].pass),
        evs[n].res == r && !evs[n].write ==> forall|i: int|
            0 <= i < n && #[trigger] evs[i].res == r && evs[i].write ==> reaches(edges_after(evs, n + 1), evs[i].pass, evs[n].pass),
{
    let e = evs[n];
    let e0 = edges_after(evs, n);
    let e1 = edges_after(evs, n + 1);
    let rs = readers_since(evs, n, r);
    let rs1 = readers_since(evs, n + 1, r);
    let lw = last_writer(evs, n, r);
    let lw1 = last_writer(evs, n + 1, r);
    let d = step_deps(evs, n);
    if e.res != r {
        assert(lw1 == lw);
        assert(rs1 == rs);
        assert forall|i: int| #![trigger evs[i]] 0 <= i < n + 1 && evs[i].res == r implies match lw1 {
            Some(w) => reaches(e1, evs[i].pass, w.0) || (!evs[i].write && rs_has(rs1, evs[i].pass)),
            None => !evs[i].write && rs_has(rs1, evs[i].pass),
        } by {
            match lw {
                Some(w) => {
                    if reaches(e0, evs[i].pass, w.0) {
                        lemma_reach_grow(evs, n, n + 1, evs[i].pass, w.0);
                    }
                }
                None => {}
            }
        }
        assert forall|t: int| #![trigger rs1[t]] 0 <= t < rs1.len() implies match lw1 {
            Some(w) => reaches(e1, w.0, rs1[t].0),
            None => true,
        } by {
            if let Some(w) = lw {
                assert(rs[t] == rs1[t]);
                lemma_reach_grow(evs, n, n + 1, w.0, rs[t].0);
            }
        }
    } else if !e.write {
        assert(lw1 == lw);
        assert(rs1 == rs.push((e.pass, e.access.access_type)));
        // the new read waits on the last writer
        if let Some(w) = lw {
            assert(d == seq![wait_on(w, e)]);
            lemma_step_reach(evs, n, 0);
            assert(reaches(e1, w.0, e.pass));
        }
        assert forall|i: int| #![trigger evs[i]] 0 <= i < n + 1 && evs[i].res == r implies match lw1 {
            Some(w) => reaches(e1, evs[i].pass, w.0) || (!evs[i].write && rs_has(rs1, evs[i].pass)),
            None => !evs[i].write && rs_has(rs1, evs[i].pass),
        } by {
            if i == n {
                assert(rs1[rs.len() as int].0 == e.pass);
            } else {
                match lw {
                    Some(w) => {
                        if reaches(e0, evs[i].pass, w.0) {
                            lemma_reach_grow(evs, n, n + 1, evs[i].pass, w.0);
                        } else {
                            let t = choose|t: int| 0 <= t < rs.len() && #[trigger] rs[t].0 == evs[i].pass;
                            assert(rs1[t] == rs[t]);
                        }
                    }
                    None => {
                        let t = choose|t: int| 0 <= t < rs.len() && #[trigger] rs[t].0 == evs[i].pass;
                        assert(rs1[t] == rs[t]);
                    }
                }
            }
        }
        assert forall|t: int| #![trigger rs1[t]] 0 <= t < rs1.len() implies match lw1 {
            Some(w) => reaches(e1, w.0, rs1[t].0),
            None => true,
        } by {
            if let Some(w) = lw {
                if t < rs.len() {
                    assert(rs[t] == rs1[t]);
                    lemma_reach_grow(evs, n, n + 1, w.0, rs[t].0);
                }
            }
        }
        assert forall|i: int| 0 <= i < n && #[trigger] evs[i].res == r && evs[i].write implies reaches(e1, evs[i].pass, e.pass) by {
            match lw {
                Some(w) => {
                    assert(reaches(e0, evs[i].pass, w.0));
                    lemma_reach_grow(evs, n, n + 1, evs[i].pass, w.0);
                    lemma_reaches_trans(e1, evs[i].pass, w.0, e.pass);
                }
                None => {}
            }
        }
    } else {
        assert(lw1 == Some((e.pass, e.access.access_type)));
        assert(rs1 =~= Seq::<(usize, AccessType)>::empty());
        lemma_reaches_refl(e1, e.pass);
        // the last writer (if any) reaches the new writer
        if let Some(w) = lw {
            if rs.len() > 0 {
                assert(d == rs.map_values(|x: (usize, AccessType)| wait_on(x, e)));
                assert(d[0] == wait_on(rs[0], e));
                lemma_step_reach(evs, n, 0);
                assert(reaches(e0, w.0, rs[0].0));
                lemma_reach_grow(evs, n, n + 1, w.0, rs[0].0);
                lemma_reaches_trans(e1, w.0, rs[0].0, e.pass);
            } else {
                assert(d == seq![wait_on(w, e)]);
                lemma_step_reach(evs, n, 0);
            }
            assert(reaches(e1, w.0, e.pass));
        }
        assert forall|i: int| 0 <= i < n && #[trigger] evs[i].res == r implies reaches(e1, evs[i].pass, e.pass) by {
            let p = evs[i].pass;
            let in_rs = !evs[i].write && rs_has(rs, p);
            if in_rs {
                let t = choose|t: int| 0 <= t < rs.len() && #[trigger] rs[t].0 == p;
                assert(rs.len() > 0);
                assert(d == rs.map_values(|x: (usize, AccessType)| wait_on(x, e)));
                assert(d[t] == wait_on(rs[t], e));
                lemma_step_reach(evs, n, t);
            } else {
                match lw {
                    Some(w) => {
                        assert(reaches(e0, p, w.0));
                        lemma_reach_grow(evs, n, n + 1, p, w.0);
                        lemma_reaches_trans(e1, p, w.0, e.pass);
                    }
                    None => {}
                }
            }
        }
        assert forall|i: int| #![trigger evs[i]] 0 <= i < n + 1 && evs[i].res == r implies match lw1 {
            Some(w) => reaches(e1, evs[i].pass, w.0) || (!evs[i].write && rs_has(rs1, evs[i].pass)),
            None => !evs[i].write && rs_has(rs1, evs[i].pass),
        } by {
            if i < n {
                assert(reaches(e1, evs[i].pass, e.pass));
            }
        }
    }
}

proof fn lemma_hazard_all(evs: Seq<AccessEvent>, n: int, r: u32)
    requires
        0 <= n <= evs.len(),
    ensures
        hazard_inv(evs, n, r),
    decreases n,
{
    if n == 0 {
        lemma_hazard_start(evs, r);
    } else {
        lemma_hazard_all(evs, n - 1, r);
        lemma_hazard_step(evs, n - 1, r);
    }
}

/// Two accesses of the same resource, at least one of them a write: the pass of
/// the earlier access reaches the pass of the later one through dependency edges.
pub proof fn lemma_conflicting_accesses_ordered(evs: Seq<AccessEvent>, i: int, j: int)
    requires
        0 <= i < j < evs.len(),
        evs[i].res == evs[j].res,
        evs[i].write || evs[j].write,
    ensures
        reaches(edges_after(evs, evs.len() as int), evs[i].pass, evs[j].pass),
{
    let r = evs[j].res;
    lemma_hazard_all(evs, j, r);
    lemma_hazard_step(evs, j, r);
    assert(evs[i].res == r);
    lemma_reach_grow(evs, j + 1, evs.len() as int, evs[i].pass, evs[j].pass);
}

/// The waits of the first `m` events are a prefix of the waits of the first `n`.
pub proof fn lemma_deps_prefix(evs: Seq<AccessEvent>, m: int, n: int)
    requires
        0 <= m <= n,
    ensures
        deps_upto(evs, m).is_prefix_of(deps_upto(evs, n)),
    decreases n - m,
{
    if m < n {
        lemma_deps_prefix(evs, m, n - 1);
        assert(deps_upto(evs, n) == deps_upto(evs, n - 1) + step_deps(evs, n - 1));
    }
}

/// More waits never mean fewer edges.
pub proof fn lemma_dep_edges_len_mono(c: Seq<Dep>, all: Seq<Dep>)
    requires
        c.is_prefix_of(all),
    ensures
        dep_edges(c).len() <= dep_edges(all).len(),
{
    let d = all.skip(c.len() as int);
    assert(all =~= c + d);
    lemma_dep_edges_prefix(c, d);
}

/// The events of a prefix of the passes are a prefix of the events of more passes.
pub proof fn lemma_events_prefix(passes: Seq<PassAccesses>, m: nat, n: nat)
    requires
        m <= n <= passes.len(),
    ensures
        events_upto(passes, m).is_prefix_of(events_upto(passes, n)),
    decreases n - m,
{
    if m < n {
        lemma_events_prefix(passes, m, (n - 1) as nat);
    }
}

/// Where the reads and writes of pass `p` sit among the events.
pub proof fn lemma_pass_event_positions(passes: Seq<PassAccesses>, p: nat)
    requires
        p < passes.len(),
        passes.len() <= usize::MAX,
    ensures
        events_upto(passes, p + 1).len() == events_upto(passes, p).len() + passes[p as int].0.len() + passes[p as int].1.len(),
        forall|k: int| 0 <= k < passes[p as int].0.len() ==> #[trigger] events_of(passes)[events_upto(passes, p).len() + k]
            == ref_event(p as usize, false, passes[p as int].0[k]),
        forall|k: int| 0 <= k < passes[p as int].1.len() ==> #[trigger] events_of(passes)[events_upto(passes, p).len() + passes[p as int].0.len() + k]
            == ref_event(p as usize, true, passes[p as int].1[k]),
{
    let pre = events_upto(passes, p);
    let cur = events_upto(passes, p + 1);
    assert(cur == pre + pass_events(p as usize, passes[p as int]));
    lemma_events_prefix(passes, p + 1, passes.len());
    let all = events_of(passes);
    assert forall|k: int| 0 <= k < passes[p as int].0.len() implies #[trigger] all[pre.len() + k] == ref_event(p as usize, false, passes[p as int].0[k]) by {
        assert(all[pre.len() + k] == cur[pre.len() + k]);
    }
    assert forall|k: int| 0 <= k < passes[p as int].1.len() implies #[trigger] all[pre.len() + passes[p as int].0.len() + k] == ref_event(p as usize, true, passes[p as int].1[k]) by {
        assert(all[pre.len() + passes[p as int].0.len() + k] == cur[pre.len() + passes[p as int].0.len() + k]);
    }
}

/// Every event belongs to one of the passes.
pub proof fn lemma_event_pass_bound(passes: Seq<PassAccesses>, n: nat, i: int)
    requires
        n <= passes.len(),
        passes.len() <= usize::MAX,
        0 <= i < events_upto(passes, n).len(),
    ensures
        events_upto(passes, n)[i].pass < n,
    decreases n,
{
    let pre = events_upto(passes, (n - 1) as nat);
    if i < pre.len() {
        lemma_event_pass_bound(passes, (n - 1) as nat, i);
    }
}

/// The events come grouped by pass in increasing pass order.
pub proof fn lemma_events_sorted(passes: Seq<PassAccesses>, n: nat)
    requires
        n <= passes.len(),
        passes.len() <= usize::MAX,
    ensures
        passes_sorted(events_upto(passes, n)),
    decreases n,
{
    if n > 0 {
        lemma_events_sorted(passes, (n - 1) as nat);
        let pre = events_upto(passes, (n - 1) as nat);
        let evs = events_upto(passes, n);
        assert forall|i: int, j: int| 0 <= i < j < evs.len() implies evs[i].pass <= evs[j].pass by {
            if j < pre.len() {
                assert(evs[i] == pre[i] && evs[j] == pre[j]);
            } else if i < pre.len() {
                assert(evs[i] == pre[i]);
                lemma_event_pass_bound(passes, (n - 1) as nat, i);
            }
        }
    }
}

/// The last writer and the readers since it belong to passes of the events.
pub proof fn lemma_waits_within(evs: Seq<AccessEvent>, n: int, r: u32, bound: nat)
    requires
        0 <= n <= evs.len(),
        forall|i: int| 0 <= i < evs.len() ==> (#[trigger] evs[i]).pass < bound,
    ensures
        last_writer(evs, n, r) matches Some(w) ==> w.0 < bound,
        forall|t: int| 0 <= t < readers_since(evs, n, r).len() ==> (#[trigger] readers_since(evs, n, r)[t]).0 < bound,
{
    if last_writer(evs, n, r) is Some {
        lemma_last_writer_earlier(evs, n, r);
    }
    assert forall|t: int| 0 <= t < readers_since(evs, n, r).len() implies (#[trigger] readers_since(evs, n, r)[t]).0 < bound by {
        lemma_readers_since_earlier(evs, n, r, t);
    }
}

/// Cutting the tail of a prefix leaves a prefix.
pub proof fn lemma_take_prefix<A>(a: Seq<A>, b: Seq<A>, all: Seq<A>, t: int)
    requires
        (a + b).is_prefix_of(all),
        0 <= t <= b.len(),
    ensures
        (a + b.take(t)).is_prefix_of(all),
{
    assert forall|k: int| 0 <= k < (a + b.take(t)).len() implies (a + b.take(t))[k] == all[k] by {
        assert((a + b.take(t))[k] == (a + b)[k]);
    }
}

/// The touches of a resource belong to passes of the events.
pub proof fn lemma_usage_list_passes(evs: Seq<AccessEvent>, n: int, r: u32, bound: nat)
    requires
        0 <= n <= evs.len(),
        forall|i: int| 0 <= i < evs.len() ==> (#[trigger] evs[i]).pass < bound,
    ensures
        forall|k: int| 0 <= k < usage_list(evs, n, r).len() ==> (#[trigger] usage_list(evs, n, r)[k]).0 < bound,
    decreases n,
{
    if n > 0 {
        lemma_usage_list_passes(evs, n - 1, r, bound);
        let prev = usage_list(evs, n - 1, r);
        if evs[n - 1].res == r {
            assert forall|k: int| 0 <= k < usage_list(evs, n, r).len() implies (#[trigger] usage_list(evs, n, r)[k]).0 < bound by {
                if k < prev.len() {
                    assert(usage_list(evs, n, r)[k] == prev[k]);
                }
            }
        }
    }
}

/// The touches of `r` among the first `n` events end with event `j` when no
/// later one of them touches `r`.
pub proof fn lemma_usage_last(evs: Seq<AccessEvent>, n: int, r: u32, j: int)
    requires
        0 <= j < n <= evs.len(),
        evs[j].res == r,
        forall|m: int| j < m < n ==> #[trigger] evs[m].res != r,
    ensures
        usage_list(evs, n, r).len() > 0,
        usage_list(evs, n, r).last() == (evs[j].pass, evs[j].access),
    decreases n,
{
    if n - 1 > j {
        lemma_usage_last(evs, n - 1, r, j);
    }
}

/// The resource ids a pass declares, reads then writes.
pub open spec fn declared_ids(pa: PassAccesses) -> Seq<u32> {
    pa.0.map_values(|x: ResourceRef| x.id) + pa.1.map_values(|x: ResourceRef| x.id)
}

/// Event `m` of the first `n` passes belongs to its pass: it sits among that
/// pass's events and touches a resource the pass declares.
pub proof fn lemma_event_origin(ps: Seq<PassAccesses>, n: nat, m: int)
    requires
        n <= ps.len(),
        ps.len() <= usize::MAX,
        0 <= m < events_upto(ps, n).len(),
    ensures
        ({
            let e = events_upto(ps, n)[m];
            &&& e.pass < n
            &&& events_upto(ps, e.pass as nat).len() <= m < events_upto(ps, (e.pass + 1) as nat).len()
            &&& declared_ids(ps[e.pass as int]).contains(e.res)
        }),
    decreases n,
{
    let pre = events_upto(ps, (n - 1) as nat);
    let cur = events_upto(ps, n);
    assert(cur == pre + pass_events((n - 1) as usize, ps[n - 1]));
    if m < pre.len() {
        lemma_event_origin(ps, (n - 1) as nat, m);
        assert(cur[m] == pre[m]);
    } else {
        let pa = ps[n - 1];
        let k = m - pre.len();
        let ids = declared_ids(pa);
        if k < pa.0.len() {
            assert(cur[m] == ref_event((n - 1) as usize, false, pa.0[k]));
            assert(ids[k] == pa.0[k].id);
        } else {
            assert(cur[m] == ref_event((n - 1) as usize, true, pa.1[k - pa.0.len()]));
            assert(ids[k] == pa.1[k - pa.0.len()].id);
        }
        assert(((n - 1) as usize) as nat == n - 1);
    }
}

/// The reader recorded at `t` since the last write of `r` among the first `n`
/// events is a read event `i` of `r` with no write of `r` after it.
proof fn lemma_reader_origin(evs: Seq<AccessEvent>, n: int, r: u32, t: int)
    requires
        0 <= n <= evs.len(),
        0 <= t < readers_since(evs, n, r).len(),
    ensures
        exists|i: int| 0 <= i < n && evs[i].res == r && !evs[i].write
            && #[trigger] readers_since(evs, n, r)[t] == (evs[i].pass, evs[i].access.access_type)
            && forall|m: int| i < m < n && evs[m].res == r ==> !evs[m].write,
    decreases n,
{
    if evs[n - 1].res != r {
        lemma_reader_origin(evs, n - 1, r, t);
    } else if evs[n - 1].write {
    } else {
        let prev = readers_since(evs, n - 1, r);
        if t < prev.len() {
            lemma_reader_origin(evs, n - 1, r, t);
            assert(readers_since(evs, n, r)[t] == prev[t]);
        } else {
            assert(readers_since(evs, n, r)[t] == (evs[n - 1].pass, evs[n - 1].access.access_type));
        }
    }
}

/// The last writer of `r` among the first `n` events is a write event `i` of
/// `r` with no write of `r` after it.
proof fn lemma_writer_origin(evs: Seq<AccessEvent>, n: int, r: u32)
    requires
        0 <= n <= evs.len(),
        last_writer(evs, n, r) is Some,
    ensures
        exists|i: int| 0 <= i < n && evs[i].res == r && evs[i].write
            && #[trigger] evs[i].access == evs[i].access
            && last_writer(evs, n, r) == Some((evs[i].pass, evs[i].access.access_type))
            && forall|m: int| i < m < n && evs[m].res == r ==> !evs[m].write,
    decreases n,
{
    if !(evs[n - 1].write && evs[n - 1].res == r) {
        lemma_writer_origin(evs, n - 1, r);
    } else {
        assert(evs[n - 1].access == evs[n - 1].access);
    }
}

/// Wait `d` is of event `k` on the earlier event `i` of the same resource:
/// one of the two writes it, no write of it lies between them, and the
/// barrier goes from the access of `i` to the access of `k`.
pub open spec fn wait_of(evs: Seq<AccessEvent>, i: int, k: int, d: Dep) -> bool {
    &&& evs[i].res == evs[k].res
    &&& evs[i].write || evs[k].write
    &&& forall|m: int| i < m < k && evs[m].res == evs[k].res ==> !evs[m].write
    &&& d == (evs[i].pass, evs[k].pass, ResourceBarrier {
        resource_id: evs[k].res,
        prev_access: evs[i].access.access_type,
        next_access: evs[k].access.access_type,
    })
}

/// Every wait names the earlier access it waits for: each wait asked by the
/// first `n` events is of some event `k` on an earlier event `i` of the same
/// resource, one of them a write, with no write of the resource between
/// them, and its barrier runs from the access of `i` to the access of `k`.
/// So a read waits for the last write, a write after a write takes the
/// earlier writer's access as the barrier's previous access, and a write
/// after reads takes each reader's.
pub proof fn lemma_waits_name_earlier_access(evs: Seq<AccessEvent>, n: int, m: int)
    requires
        0 <= n <= evs.len(),
        0 <= m < deps_upto(evs, n).len(),
    ensures
        exists|i: int, k: int| 0 <= i < k < n && #[trigger] wait_of(evs, i, k, deps_upto(evs, n)[m]),
    decreases n,
{
    let prev = deps_upto(evs, n - 1);
    let s = step_deps(evs, n - 1);
    assert(deps_upto(evs, n) == prev + s);
    if m < prev.len() {
        lemma_waits_name_earlier_access(evs, n - 1, m);
        assert(deps_upto(evs, n)[m] == prev[m]);
        let (i, k) = choose|i: int, k: int| 0 <= i < k < n - 1 && #[trigger] wait_of(evs, i, k, prev[m]);
        assert(wait_of(evs, i, k, deps_upto(evs, n)[m]));
    } else {
        let t = m - prev.len();
        let k = n - 1;
        let e = evs[k];
        assert(deps_upto(evs, n)[m] == s[t]);
        let rs = readers_since(evs, k, e.res);
        if e.write && rs.len() > 0 {
            assert(s[t] == wait_on(rs[t], e));
            lemma_reader_origin(evs, k, e.res, t);
            let i = choose|i: int| 0 <= i < k && evs[i].res == e.res && !evs[i].write
                && #[trigger] readers_since(evs, k, e.res)[t] == (evs[i].pass, evs[i].access.access_type)
                && forall|mm: int| i < mm < k && evs[mm].res == e.res ==> !evs[mm].write;
            assert(wait_of(evs, i, k, s[t]));
        } else {
            let w = last_writer(evs, k, e.res);
            assert(w is Some);
            assert(s[t] == wait_on(w.unwrap(), e));
            lemma_writer_origin(evs, k, e.res);
            let i = choose|i: int| 0 <= i < k && evs[i].res == e.res && evs[i].write
                && #[trigger] evs[i].access == evs[i].access
                && last_writer(evs, k, e.res) == Some((evs[i].pass, evs[i].access.access_type))
                && forall|mm: int| i < mm < k && evs[mm].res == e.res ==> !evs[mm].write;
            assert(wait_of(evs, i, k, s[t]));
        }
    }
}

} // verus!
