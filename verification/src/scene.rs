//! A scene as a forest of nodes, and the plan for loading it onto the GPU:
//! one bottom-level acceleration structure per distinct primitive, and one
//! instance of it per occurrence of the primitive in the node tree. Node
//! transforms stay with the caller; each instance carries the path of the node
//! it comes from, along which the caller composes the world transform.
use vstd::prelude::*;
use crate::error::SrError;

verus! {

/// One primitive of a mesh: the key that identifies its geometry, and the
/// index of its material.
#[derive(Clone, Copy, Debug, PartialEq, Eq, Structural)]
pub struct Primitive {
    pub unique_key: u64,
    pub material: u32,
}

/// A node of the scene: an optional mesh (its primitives) and child nodes.
#[derive(Debug)]
pub struct Node {
    pub mesh: Option<Vec<Primitive>>,
    pub children: Vec<Node>,
}

/// A scene: its root nodes.
pub struct Scene {
    nodes: Vec<Node>,
}

/// One occurrence of a primitive in the tree: the path of child indices from
/// the roots to its node, and the primitive.
pub type Occurrence = (Seq<usize>, Primitive);

/// The primitives of a node's mesh, at `path`.
pub open spec fn mesh_occurrences(mesh: Option<Vec<Primitive>>, path: Seq<usize>) -> Seq<Occurrence> {
    match mesh {
        Some(prims) => prims@.map_values(|p: Primitive| (path, p)),
        None => Seq::empty(),
    }
}

/// The occurrences in `node` (at `path`) and below, in depth-first pre-order:
/// the node's own primitives, then each child's subtree in order.
pub open spec fn node_occurrences(node: Node, path: Seq<usize>) -> Seq<Occurrence>
    decreases node, 1int,
{
    mesh_occurrences(node.mesh, path) + forest_occurrences(node.children@, path, node.children@.len() as int)
}

/// The occurrences in the first `n` trees of `nodes`, whose parent is at `path`.
pub open spec fn forest_occurrences(nodes: Seq<Node>, path: Seq<usize>, n: int) -> Seq<Occurrence>
    decreases nodes, 0int, n,
{
    if n <= 0 || n > nodes.len() {
        Seq::empty()
    } else {
        forest_occurrences(nodes, path, n - 1) + node_occurrences(nodes[n - 1], path.push((n - 1) as usize))
    }
}

/// The distinct primitive keys of `occ`, in order of first occurrence.
pub open spec fn distinct_keys(occ: Seq<Occurrence>) -> Seq<u64>
    decreases occ.len(),
{
    if occ.len() == 0 {
        Seq::empty()
    } else {
        let d = distinct_keys(occ.drop_last());
        let k = occ.last().1.unique_key;
        if d.contains(k) {
            d
        } else {
            d.push(k)
        }
    }
}

/// The loading plan of a scene.
#[derive(Debug)]
pub struct ScenePlan {
    /// Primitive key of each acceleration structure to build, in build order.
    pub blas_keys: Vec<u64>,
    /// Material of each primitive occurrence, in traversal order.
    pub materials: Vec<u32>,
    /// Each occurrence as an instance: the index of its acceleration structure
    /// and the path of its node.
    pub instances: Vec<(usize, Vec<usize>)>,
}

/// `plan` loads exactly the occurrences `occ`.
pub open spec fn plan_matches(plan: ScenePlan, occ: Seq<Occurrence>) -> bool {
    &&& plan.blas_keys@ == distinct_keys(occ)
    &&& plan.materials@ == occ.map_values(|o: Occurrence| o.1.material)
    &&& plan.instances@.len() == occ.len()
    &&& forall|i: int| 0 <= i < occ.len() ==> {
        let inst = #[trigger] plan.instances@[i];
        &&& inst.1@ == occ[i].0
        &&& inst.0 < plan.blas_keys@.len()
        &&& plan.blas_keys@[inst.0 as int] == occ[i].1.unique_key
    }
}

proof fn lemma_distinct_keys_push(occ: Seq<Occurrence>, o: Occurrence)
    ensures
        distinct_keys(occ.push(o)) == (if distinct_keys(occ).contains(o.1.unique_key) {
            distinct_keys(occ)
        } else {
            distinct_keys(occ).push(o.1.unique_key)
        }),
{
    assert(occ.push(o).drop_last() =~= occ);
}

/// Index of `k` in `keys`, if present.
fn find_key(keys: &Vec<u64>, k: u64) -> (r: Option<usize>)
    ensures
        match r {
            Some(i) => i < keys@.len() && keys@[i as int] == k,
            None => !keys@.contains(k),
        },
{
    let mut i: usize = 0;
    while i < keys.len()
        invariant
            i <= keys@.len(),
            forall|j: int| 0 <= j < i ==> keys@[j] != k,
        decreases keys@.len() - i,
    {
        if keys[i] == k {
            return Some(i);
        }
        i = i + 1;
    }
    None
}

/// A copy of a path with one more step.
fn extend_path(path: &Vec<usize>, step: usize) -> (r: Vec<usize>)
    ensures
        r@ == path@.push(step),
{
    let mut r = path.clone();
    proof {
        assert(r@ =~= path@);
    }
    r.push(step);
    r
}

/// Add one occurrence to the plan.
fn add_occurrence(plan: &mut ScenePlan, path: &Vec<usize>, prim: Primitive, Ghost(occ): Ghost<Seq<Occurrence>>)
    requires
        plan_matches(*old(plan), occ),
    ensures
        plan_matches(*final(plan), occ.push((path@, prim))),
{
    let ghost o: Occurrence = (path@, prim);
    let blas_index = match find_key(&plan.blas_keys, prim.unique_key) {
        Some(i) => i,
        None => {
            plan.blas_keys.push(prim.unique_key);
            plan.blas_keys.len() - 1
        },
    };
    plan.materials.push(prim.material);
    let p2 = path.clone();
    proof {
        assert(p2@ =~= path@);
    }
    plan.instances.push((blas_index, p2));
    proof {
        lemma_distinct_keys_push(occ, o);
        let occ2 = occ.push(o);
        assert(plan.materials@ =~= occ2.map_values(|x: Occurrence| x.1.material));
        assert forall|i: int| 0 <= i < occ2.len() implies {
            let inst = #[trigger] plan.instances@[i];
            &&& inst.1@ == occ2[i].0
            &&& inst.0 < plan.blas_keys@.len()
            &&& plan.blas_keys@[inst.0 as int] == occ2[i].1.unique_key
        } by {
            if i < occ.len() {
                assert(plan.instances@[i] == old(plan).instances@[i]);
                let k = old(plan).instances@[i].0 as int;
                assert(plan.blas_keys@[k] == old(plan).blas_keys@[k]);
            }
        }
    }
}

/// Add the occurrences of `node` (at `path`) and its subtree to the plan.
fn load_node(node: &Node, path: &Vec<usize>, plan: &mut ScenePlan, Ghost(occ): Ghost<Seq<Occurrence>>)
    requires
        plan_matches(*old(plan), occ),
    ensures
        plan_matches(*final(plan), occ + node_occurrences(*node, path@)),
    decreases node, 1int,
{
    let ghost mut acc = occ;
    match &node.mesh {
        Some(prims) => {
            let mut i: usize = 0;
            while i < prims.len()
                invariant
                    i <= prims@.len(),
                    node.mesh == Some(*prims),
                    acc == occ + mesh_occurrences(node.mesh, path@).take(i as int),
                    plan_matches(*plan, acc),
                decreases prims@.len() - i,
            {
                let prim = prims[i];
                add_occurrence(plan, path, prim, Ghost(acc));
                proof {
                    let m = mesh_occurrences(node.mesh, path@);
                    assert(m[i as int] == (path@, prim));
                    assert(m.take(i + 1) =~= m.take(i as int).push(m[i as int]));
                    acc = acc.push((path@, prim));
                    assert(acc =~= occ + m.take(i + 1));
                }
                i = i + 1;
            }
            proof {
                let m = mesh_occurrences(node.mesh, path@);
                assert(m.take(m.len() as int) =~= m);
            }
        },
        None => {
            proof {
                assert(acc =~= occ + mesh_occurrences(node.mesh, path@));
            }
        },
    }
    let ghost base = acc;
    load_forest(&node.children, path, plan, Ghost(base));
    proof {
        assert(base + forest_occurrences(node.children@, path@, node.children@.len() as int)
            =~= occ + node_occurrences(*node, path@));
    }
}

/// Add the occurrences of every tree of `nodes` (children of `path`) to the plan.
fn load_forest(nodes: &Vec<Node>, path: &Vec<usize>, plan: &mut ScenePlan, Ghost(occ): Ghost<Seq<Occurrence>>)
    requires
        plan_matches(*old(plan), occ),
    ensures
        plan_matches(*final(plan), occ + forest_occurrences(nodes@, path@, nodes@.len() as int)),
    decreases nodes@, 0int, nodes@.len(),
{
    let mut i: usize = 0;
    while i < nodes.len()
        invariant
            i <= nodes@.len(),
            plan_matches(*plan, occ + forest_occurrences(nodes@, path@, i as int)),
        decreases nodes@.len() - i,
    {
        let child_path = extend_path(path, i);
        let ghost before = occ + forest_occurrences(nodes@, path@, i as int);
        load_node(&nodes[i], &child_path, plan, Ghost(before));
        proof {
            assert(forest_occurrences(nodes@, path@, i + 1) == forest_occurrences(nodes@, path@, i as int)
                + node_occurrences(nodes@[i as int], path@.push(i)));
            assert(before + node_occurrences(nodes@[i as int], path@.push(i))
                =~= occ + forest_occurrences(nodes@, path@, i + 1));
        }
        i = i + 1;
    }
}

impl Scene {
    pub closed spec fn spec_nodes(&self) -> Seq<Node> {
        self.nodes@
    }

    pub fn new(nodes: Vec<Node>) -> (r: Result<Self, SrError>)
        ensures
            r matches Ok(s) && s.spec_nodes() == nodes@,
    {
        Ok(Scene { nodes })
    }

    /// The root nodes.
    pub fn nodes(&self) -> (r: &Vec<Node>)
        ensures
            r@ == self.spec_nodes(),
    {
        &self.nodes
    }

    /// Every primitive occurrence of the scene, in depth-first pre-order.
    pub open spec fn spec_occurrences(&self) -> Seq<Occurrence> {
        forest_occurrences(self.spec_nodes(), Seq::empty(), self.spec_nodes().len() as int)
    }

    /// The loading plan: visit the nodes depth-first, pre-order; build one
    /// acceleration structure per distinct primitive key, the first time the
    /// key is seen, and instance it at each occurrence; keep each occurrence's
    /// material in order.
    pub fn load(&self) -> (plan: ScenePlan)
        ensures
            plan_matches(plan, self.spec_occurrences()),
    {
        let mut plan = ScenePlan { blas_keys: Vec::new(), materials: Vec::new(), instances: Vec::new() };
        let root: Vec<usize> = Vec::new();
        proof {
            assert(plan.materials@ =~= Seq::<Occurrence>::empty().map_values(|o: Occurrence| o.1.material));
            assert(distinct_keys(Seq::<Occurrence>::empty()) =~= Seq::<u64>::empty());
        }
        load_forest(&self.nodes, &root, &mut plan, Ghost(Seq::empty()));
        proof {
            assert(Seq::<Occurrence>::empty() + self.spec_occurrences() =~= self.spec_occurrences());
            assert(root@ =~= Seq::<usize>::empty());
        }
        plan
    }
}

} // verus!
