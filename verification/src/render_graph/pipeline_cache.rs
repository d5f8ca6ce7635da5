//! Content-addressed cache of pipelines, owned beside the render graph and kept
//! across its per-frame reset and rebuild: passes describe their shaders every
//! frame, but a pipeline is built once per distinct shader set and reused.
//! Entries are addressed by `PipelineHandle` (an index into the entries); a map
//! from the hash of the shader bytes to the handle deduplicates them. There is
//! no eviction: an interned pipeline lives as long as the cache.
use vstd::prelude::*;
use std::collections::HashMap;
use std::collections::hash_map::DefaultHasher;
use std::hash::Hasher;
use vstd::std_specs::hash::DefaultHasherAdditionalSpecFns;
use crate::error::SrError;

verus! {

broadcast use vstd::std_specs::hash::group_hash_axioms;

/// Lightweight reference to a pipeline interned in a `PipelineCache`.
#[derive(Clone, Copy, Debug, PartialEq, Eq, Hash, Structural)]
pub struct PipelineHandle(pub u32);

/// The pipelines built so far, and the handle of each shader-set key.
pub struct PipelineCache<P> {
    entries: Vec<P>,
    by_key: HashMap<u64, PipelineHandle>,
}

/// What interning `key` with `build` did to a well-formed cache `c0`, giving
/// `c1` and the result `r`: a key seen before gives its handle and leaves the
/// cache as it was; a new key either gets the next handle for the pipeline
/// `build` made, or the cache stays as it was and `build`'s error is returned.
pub open spec fn interned<P, F: FnOnce() -> Result<P, SrError>>(
    c0: PipelineCache<P>,
    c1: PipelineCache<P>,
    key: u64,
    build: F,
    r: Result<PipelineHandle, SrError>,
) -> bool {
    &&& c1.wf()
    &&& c0.spec_keys().contains_key(key) ==> {
        &&& r == Ok::<PipelineHandle, SrError>(c0.spec_keys()[key])
        &&& c1.spec_entries() == c0.spec_entries()
        &&& c1.spec_keys() == c0.spec_keys()
    }
    &&& !c0.spec_keys().contains_key(key) ==> match r {
        Ok(h) => {
            &&& h.0 == c0.spec_entries().len()
            &&& c1.spec_entries().len() == c0.spec_entries().len() + 1
            &&& c1.spec_entries().drop_last() == c0.spec_entries()
            &&& build.ensures((), Ok::<P, SrError>(c1.spec_entries().last()))
            &&& c1.spec_keys() == c0.spec_keys().insert(key, h)
        },
        Err(e) => {
            &&& build.ensures((), Err::<P, SrError>(e))
            &&& c1.spec_entries() == c0.spec_entries()
            &&& c1.spec_keys() == c0.spec_keys()
        },
    }
}

impl<P> PipelineCache<P> {

    pub closed spec fn spec_entries(&self) -> Seq<P> {
        self.entries@
    }

    /// The handle each interned key resolves to.
    pub closed spec fn spec_keys(&self) -> Map<u64, PipelineHandle> {
        self.by_key@
    }

    /// Every key resolves to an entry, and no two keys share one.
    pub open spec fn wf(&self) -> bool {
        &&& forall|k: u64| #[trigger] self.spec_keys().contains_key(k) ==> self.spec_keys()[k].0 < self.spec_entries().len()
        &&& forall|k1: u64, k2: u64| #[trigger] self.spec_keys().contains_key(k1) && #[trigger] self.spec_keys().contains_key(k2)
            && k1 != k2 ==> self.spec_keys()[k1] != self.spec_keys()[k2]
        &&& self.spec_entries().len() <= u32::MAX
    }

    /// An empty cache.
    pub fn new() -> (c: Self)
        ensures
            c.wf(),
            c.spec_entries() == Seq::<P>::empty(),
            c.spec_keys() == Map::<u64, PipelineHandle>::empty(),
    {
        PipelineCache { entries: Vec::new(), by_key: HashMap::new() }
    }

    /// Number of interned pipelines.
    pub fn len(&self) -> (r: usize)
        ensures
            r == self.spec_entries().len(),
    {
        self.entries.len()
    }

    /// The pipeline a handle refers to, if the handle is one of this cache's.
    pub fn get(&self, handle: PipelineHandle) -> (r: Option<&P>)
        ensures
            r == (if (handle.0 as int) < self.spec_entries().len() {
                Some(&self.spec_entries()[handle.0 as int])
            } else {
                None
            }),
    {
        let i = handle.0 as usize;
        if i < self.entries.len() {
            Some(&self.entries[i])
        } else {
            None
        }
    }

    /// The handle of `key` if it was interned already.
    pub fn lookup(&self, key: u64) -> (r: Option<PipelineHandle>)
        ensures
            r == (if self.spec_keys().contains_key(key) { Some(self.spec_keys()[key]) } else { None::<PipelineHandle> }),
    {
        match self.by_key.get(&key) {
            Some(h) => Some(*h),
            None => None,
        }
    }

    /// Return the handle for `key` if already interned; otherwise build the
    /// pipeline with `build`, store it under a fresh handle (the next index)
    /// and return that handle. A failing build leaves the cache unchanged.
    pub fn intern<F: FnOnce() -> Result<P, SrError>>(&mut self, key: u64, build: F) -> (r: Result<PipelineHandle, SrError>)
        requires
            old(self).wf(),
            old(self).spec_entries().len() < u32::MAX,
            old(self).spec_keys().contains_key(key) || build.requires(()),
        ensures
            interned(*old(self), *final(self), key, build, r),
    {
        match self.by_key.get(&key) {
            Some(h) => {
                return Ok(*h);
            },
            None => {},
        }
        let built = build();
        match built {
            Ok(entry) => {
                let handle = PipelineHandle(self.entries.len() as u32);
                let ghost old_entries = self.entries@;
                self.entries.push(entry);
                self.by_key.insert(key, handle);
                proof {
                    assert(self.entries@.drop_last() =~= old_entries);
                    let m = self.spec_keys();
                    assert(m == old(self).spec_keys().insert(key, handle));
                    assert(!old(self).spec_keys().contains_key(key));
                    assert forall|k: u64| #[trigger] m.contains_key(k) implies m[k].0 < self.entries@.len() by {
                        if k != key {
                            assert(old(self).spec_keys().contains_key(k));
                        }
                    }
                    assert forall|k1: u64, k2: u64| #[trigger] m.contains_key(k1) && #[trigger] m.contains_key(k2)
                        && k1 != k2 implies m[k1] != m[k2] by {
                        if k1 == key {
                            assert(old(self).spec_keys().contains_key(k2));
                        } else if k2 == key {
                            assert(old(self).spec_keys().contains_key(k1));
                        } else {
                            assert(old(self).spec_keys().contains_key(k1) && old(self).spec_keys().contains_key(k2));
                        }
                    }
                }
                Ok(handle)
            },
            Err(e) => Err(e),
        }
    }
}

/// The `k` low bytes of `v`, least significant first.
pub open spec fn le_bytes(v: nat, k: nat) -> Seq<u8>
    decreases k,
{
    if k == 0 {
        Seq::empty()
    } else {
        seq![(v % 256) as u8] + le_bytes(v / 256, (k - 1) as nat)
    }
}

/// `r` is `v` written as `k` bytes in the machine's byte order: least
/// significant first on a little-endian machine, most significant first on a
/// big-endian one.
pub open spec fn native_bytes(r: Seq<u8>, v: nat, k: nat) -> bool {
    r == le_bytes(v, k) || r == le_bytes(v, k).reverse()
}

/// `usize::to_ne_bytes`: the length prefix a slice's `Hash` writes, one
/// `usize` in the machine's byte order.
#[verifier::external_body]
fn length_prefix_bytes(n: usize) -> (r: Vec<u8>)
    ensures
        r@.len() == core::mem::size_of::<usize>(),
        native_bytes(r@, n as nat, core::mem::size_of::<usize>() as nat),
{
    n.to_ne_bytes().to_vec()
}

/// The writes a `DefaultHasher` sees when `kind` and then each slice of
/// `parts` are hashed: the kind byte, then per slice its length prefix (its
/// length as one `usize` in the machine's byte order) and its bytes.
pub open spec fn cache_key_writes(w: Seq<Seq<u8>>, kind: u8, parts: Seq<Seq<u8>>) -> bool {
    &&& w.len() == 1 + 2 * parts.len()
    &&& w[0] == seq![kind]
    &&& forall|i: int| 0 <= i < parts.len() ==>
            native_bytes(#[trigger] w[2 * i + 1], parts[i].len(), core::mem::size_of::<usize>() as nat)
    &&& forall|i: int| 0 <= i < parts.len() ==> #[trigger] w[2 * i + 2] == parts[i]
}

/// Hash a set of byte slices, plus a `kind` discriminant so that a compute
/// shader and a graphics shader of the same bytes never collide, into a
/// cache key.
pub fn pipeline_cache_key(kind: u8, parts: &Vec<Vec<u8>>) -> (r: u64)
    ensures
        exists|w: Seq<Seq<u8>>| cache_key_writes(w, kind, parts@.map_values(|p: Vec<u8>| p@))
            && r == DefaultHasher::spec_finish(w),
{
    let mut hasher = DefaultHasher::new();
    let kind_bytes: [u8; 1] = [kind];
    hasher.write(&kind_bytes);
    let ghost ps = parts@.map_values(|p: Vec<u8>| p@);
    let mut i: usize = 0;
    while i < parts.len()
        invariant
            i <= parts@.len(),
            ps == parts@.map_values(|p: Vec<u8>| p@),
            hasher@.len() == 1 + 2 * i,
            hasher@[0] == seq![kind],
            forall|j: int| 0 <= j < i ==>
                native_bytes(#[trigger] hasher@[2 * j + 1], ps[j].len(), core::mem::size_of::<usize>() as nat),
            forall|j: int| 0 <= j < i ==> #[trigger] hasher@[2 * j + 2] == ps[j],
        decreases parts@.len() - i,
    {
        let part = &parts[i];
        let prefix = length_prefix_bytes(part.len());
        let ghost before = hasher@;
        hasher.write(prefix.as_slice());
        hasher.write(part.as_slice());
        proof {
            assert forall|j: int| 0 <= j < i + 1 implies
                native_bytes(#[trigger] hasher@[2 * j + 1], ps[j].len(), core::mem::size_of::<usize>() as nat) by {
                if j < i {
                    assert(hasher@[2 * j + 1] == before[2 * j + 1]);
                }
            }
            assert forall|j: int| 0 <= j < i + 1 implies #[trigger] hasher@[2 * j + 2] == ps[j] by {
                if j < i {
                    assert(hasher@[2 * j + 2] == before[2 * j + 2]);
                }
            }
        }
        i = i + 1;
    }
    let r = hasher.finish();
    proof {
        assert(cache_key_writes(hasher@, kind, ps));
    }
    r
}

/// A copy of a byte blob.
fn bytes_copy(v: &Vec<u8>) -> (r: Vec<u8>)
    ensures
        r@ == v@,
{
    let r = v.clone();
    proof {
        assert(r@ =~= v@);
    }
    r
}

/// The key hashes these byte parts under this kind.
pub open spec fn is_cache_key(r: u64, kind: u8, parts: Seq<Seq<u8>>) -> bool {
    exists|w: Seq<Seq<u8>>| cache_key_writes(w, kind, parts) && r == DefaultHasher::spec_finish(w)
}

/// Cache key of a compute pipeline: discriminant 0 over its SPIR-V.
pub fn compute_pipeline_key(spirv: &Vec<u8>) -> (r: u64)
    ensures
        is_cache_key(r, 0, seq![spirv@]),
{
    let parts = vec![bytes_copy(spirv)];
    proof {
        assert(parts@.map_values(|p: Vec<u8>| p@) =~= seq![spirv@]);
    }
    pipeline_cache_key(0, &parts)
}

/// Cache key of a ray-tracing pipeline: discriminant 1 over the SPIR-V of its
/// ray-gen, miss, closest-hit and any-hit stages, in that order.
pub fn raytracing_pipeline_key(ray_gen: &Vec<u8>, miss: &Vec<u8>, closest_hit: &Vec<u8>, any_hit: &Vec<u8>) -> (r: u64)
    ensures
        is_cache_key(r, 1, seq![ray_gen@, miss@, closest_hit@, any_hit@]),
{
    let parts = vec![bytes_copy(ray_gen), bytes_copy(miss), bytes_copy(closest_hit), bytes_copy(any_hit)];
    proof {
        assert(parts@.map_values(|p: Vec<u8>| p@) =~= seq![ray_gen@, miss@, closest_hit@, any_hit@]);
    }
    pipeline_cache_key(1, &parts)
}

/// `i32::to_ne_bytes`: the four bytes of `x` (two's complement) in the
/// machine's byte order.
#[verifier::external_body]
fn i32_ne_bytes(x: i32) -> (r: Vec<u8>)
    ensures
        native_bytes(r@, (x as int % 0x1_0000_0000) as nat, 4),
{
    x.to_ne_bytes().to_vec()
}

/// The key hashes, under discriminant 2, the vertex and fragment SPIR-V and the
/// four bytes of the color format in the machine's byte order.
pub open spec fn is_graphics_key(r: u64, vertex: Seq<u8>, fragment: Seq<u8>, color_format: i32) -> bool {
    exists|f: Seq<u8>| native_bytes(f, (color_format as int % 0x1_0000_0000) as nat, 4)
        && is_cache_key(r, 2, seq![vertex, fragment, f])
}

/// Cache key of a graphics pipeline: discriminant 2 over its vertex and fragment
/// SPIR-V and the bytes of its color format (the vertex layout is not part of
/// the key).
pub fn graphics_pipeline_key(vertex: &Vec<u8>, fragment: &Vec<u8>, color_format: i32) -> (r: u64)
    ensures
        is_graphics_key(r, vertex@, fragment@, color_format),
{
    let fmt = i32_ne_bytes(color_format);
    let ghost f = fmt@;
    let parts = vec![bytes_copy(vertex), bytes_copy(fragment), fmt];
    proof {
        assert(parts@.map_values(|p: Vec<u8>| p@) =~= seq![vertex@, fragment@, f]);
    }
    pipeline_cache_key(2, &parts)
}

impl<P> PipelineCache<P> {
    /// Intern the compute pipeline of `spirv` (see `compute_pipeline_key`),
    /// built by `build` when it is new.
    pub fn intern_compute<F: FnOnce() -> Result<P, SrError>>(&mut self, spirv: &Vec<u8>, build: F) -> (r: Result<PipelineHandle, SrError>)
        requires
            old(self).wf(),
            old(self).spec_entries().len() < u32::MAX,
            build.requires(()),
        ensures
            exists|k: u64| is_cache_key(k, 0, seq![spirv@]) && #[trigger] interned(*old(self), *final(self), k, build, r),
    {
        let key = compute_pipeline_key(spirv);
        self.intern(key, build)
    }

    /// Intern the ray-tracing pipeline (and its shader binding table) of
    /// these stages (see `raytracing_pipeline_key`), built by `build` when it
    /// is new.
    pub fn intern_raytracing<F: FnOnce() -> Result<P, SrError>>(
        &mut self,
        ray_gen: &Vec<u8>,
        miss: &Vec<u8>,
        closest_hit: &Vec<u8>,
        any_hit: &Vec<u8>,
        build: F,
    ) -> (r: Result<PipelineHandle, SrError>)
        requires
            old(self).wf(),
            old(self).spec_entries().len() < u32::MAX,
            build.requires(()),
        ensures
            exists|k: u64| is_cache_key(k, 1, seq![ray_gen@, miss@, closest_hit@, any_hit@])
                && #[trigger] interned(*old(self), *final(self), k, build, r),
    {
        let key = raytracing_pipeline_key(ray_gen, miss, closest_hit, any_hit);
        self.intern(key, build)
    }

    /// Intern the graphics pipeline of these shaders and color format (see
    /// `graphics_pipeline_key`), built by `build` when it is new.
    pub fn intern_graphics<F: FnOnce() -> Result<P, SrError>>(
        &mut self,
        vertex: &Vec<u8>,
        fragment: &Vec<u8>,
        color_format: i32,
        build: F,
    ) -> (r: Result<PipelineHandle, SrError>)
        requires
            old(self).wf(),
            old(self).spec_entries().len() < u32::MAX,
            build.requires(()),
        ensures
            exists|k: u64| is_graphics_key(k, vertex@, fragment@, color_format)
                && #[trigger] interned(*old(self), *final(self), k, build, r),
    {
        let key = graphics_pipeline_key(vertex, fragment, color_format);
        self.intern(key, build)
    }
}

/// A pipeline is built at most once per key: once interning a key has
/// succeeded, interning it again gives the same handle and leaves the cache
/// as it was, whatever the second builder would have built.
pub proof fn lemma_intern_is_idempotent<P, F1: FnOnce() -> Result<P, SrError>, F2: FnOnce() -> Result<P, SrError>>(
    c0: PipelineCache<P>,
    c1: PipelineCache<P>,
    c2: PipelineCache<P>,
    key: u64,
    first: F1,
    second: F2,
    r1: Result<PipelineHandle, SrError>,
    r2: Result<PipelineHandle, SrError>,
)
    requires
        interned(c0, c1, key, first, r1),
        r1 is Ok,
        interned(c1, c2, key, second, r2),
    ensures
        r2 == r1,
        c2.spec_entries() == c1.spec_entries(),
        c2.spec_keys() == c1.spec_keys(),
{
    if !c0.spec_keys().contains_key(key) {
        assert(c1.spec_keys().contains_key(key));
    }
}

} // verus!

