//! Bookkeeping of the renderer that does not touch the GPU: asset keys and
//! scene groups, the grouping of a scene's instances, frame counters, the
//! renderer's configuration flags and a few per-frame computations.
use vstd::prelude::*;
use std::collections::HashMap;
use crate::render_graph::resource::Extent3D;
use crate::frame::{FrameCallbacks, due_callbacks, pending_callbacks};
use crate::utils::tuple_to_extent3d;
use crate::error::SrError;

verus! {

broadcast use vstd::std_specs::hash::group_hash_axioms;

/// Key identifying a GPU asset (acceleration structure or image) of the
/// renderer. `group` ties together every asset created by one scene load, so
/// that a whole scene can be freed at once; `index` is unique within the group.
#[derive(Clone, Copy, Debug, PartialEq, Eq, Hash, Structural)]
pub struct ResourceKey {
    pub group: u64,
    pub index: u64,
}

/// Hands out the keys of one scene load: `index` counts up from 0.
pub struct ResourceKeyGen {
    pub group: u64,
    pub next_index: u64,
}

impl ResourceKeyGen {
    pub fn new(group: u64) -> (g: Self)
        ensures
            g.group == group,
            g.next_index == 0,
    {
        ResourceKeyGen { group, next_index: 0 }
    }

    pub fn next_key(&mut self) -> (k: ResourceKey)
        requires
            old(self).next_index < u64::MAX,
        ensures
            k == (ResourceKey { group: old(self).group, index: old(self).next_index }),
            final(self).group == old(self).group,
            final(self).next_index == old(self).next_index + 1,
    {
        let k = ResourceKey { group: self.group, index: self.next_index };
        self.next_index = self.next_index + 1;
        k
    }
}

/// The asset keys of every loaded scene, by group, and the next group number.
pub struct SceneGroups<K> {
    next_group: u64,
    groups: HashMap<u64, Vec<K>>,
}

impl<K> SceneGroups<K> {
    pub closed spec fn spec_next_group(&self) -> u64 {
        self.next_group
    }

    pub closed spec fn spec_groups(&self) -> Map<u64, Vec<K>> {
        self.groups@
    }

    pub fn new() -> (g: Self)
        ensures
            g.spec_next_group() == 0,
            g.spec_groups() == Map::<u64, Vec<K>>::empty(),
    {
        SceneGroups { next_group: 0, groups: HashMap::new() }
    }

    /// Start a scene load: its group number.
    pub fn begin_group(&mut self) -> (group: u64)
        requires
            old(self).spec_next_group() < u64::MAX,
        ensures
            group == old(self).spec_next_group(),
            final(self).spec_next_group() == group + 1,
            final(self).spec_groups() == old(self).spec_groups(),
    {
        let g = self.next_group;
        self.next_group = self.next_group + 1;
        g
    }

    /// Remember the keys a scene load created.
    pub fn insert_group(&mut self, group: u64, keys: Vec<K>)
        ensures
            final(self).spec_next_group() == old(self).spec_next_group(),
            final(self).spec_groups() == old(self).spec_groups().insert(group, keys),
    {
        self.groups.insert(group, keys);
    }

    /// Forget a group and hand back its keys, to free its assets; `None` if
    /// the group is unknown.
    pub fn remove_group(&mut self, group: u64) -> (r: Option<Vec<K>>)
        ensures
            final(self).spec_next_group() == old(self).spec_next_group(),
            final(self).spec_groups() == old(self).spec_groups().remove(group),
            r == (if old(self).spec_groups().contains_key(group) {
                Some(old(self).spec_groups()[group])
            } else {
                None::<Vec<K>>
            }),
    {
        self.groups.remove(&group)
    }
}

/// `items` grouped by acceleration structure: entry `b` holds key `keys[b]`
/// and, in their order, the items whose index is `b`.
pub open spec fn grouped_by<K, T>(keys: Seq<K>, items: Seq<(usize, T)>, r: Seq<(K, Seq<T>)>) -> bool {
    &&& r.len() == keys.len()
    &&& forall|b: int| 0 <= b < keys.len() ==> (#[trigger] r[b]).0 == keys[b]
        && r[b].1 == items.filter(|x: (usize, T)| x.0 == b).map_values(|x: (usize, T)| x.1)
}

/// Group the per-instance items of a scene by acceleration structure,
/// keeping their order.
pub fn group_instances<K: Copy, T>(keys: &Vec<K>, items: Vec<(usize, T)>) -> (r: Vec<(K, Vec<T>)>)
    requires
        forall|i: int| 0 <= i < items@.len() ==> (#[trigger] items@[i]).0 < keys@.len(),
    ensures
        r@.len() == keys@.len(),
        forall|b: int| 0 <= b < keys@.len() ==> (#[trigger] r@[b]).0 == keys@[b]
            && r@[b].1@ == items@.filter(|x: (usize, T)| x.0 == b).map_values(|x: (usize, T)| x.1),
{
    let mut out: Vec<(K, Vec<T>)> = Vec::new();
    let mut b: usize = 0;
    while b < keys.len()
        invariant
            b <= keys@.len(),
            out@.len() == b,
            forall|c: int| 0 <= c < b ==> (#[trigger] out@[c]).0 == keys@[c] && out@[c].1@.len() == 0,
        decreases keys@.len() - b,
    {
        out.push((keys[b], Vec::new()));
        b = b + 1;
    }
    let ghost all = items@;
    let mut rest = items;
    let ghost mut done: Seq<(usize, T)> = Seq::empty();
    while rest.len() > 0
        invariant
            all == done + rest@,
            out@.len() == keys@.len(),
            forall|i: int| 0 <= i < all.len() ==> (#[trigger] all[i]).0 < keys@.len(),
            forall|c: int| 0 <= c < keys@.len() ==> (#[trigger] out@[c]).0 == keys@[c]
                && out@[c].1@ == done.filter(|x: (usize, T)| x.0 == c).map_values(|x: (usize, T)| x.1),
        decreases rest@.len(),
    {
        let ghost before = rest@;
        let (bi, item) = rest.remove(0);
        proof {
            assert(before[0] == (bi, item));
            assert(before.drop_first() == rest@);
            assert(all[done.len() as int] == (bi, item));
        }
        let ghost out0 = out@;
        let ghost done0 = done;
        let entry = &mut out[bi];
        entry.1.push(item);
        proof {
            done = done.push((bi, item));
            assert(all =~= done + rest@);
            assert forall|c: int| 0 <= c < keys@.len() implies (#[trigger] out@[c]).0 == keys@[c]
                && out@[c].1@ == done.filter(|x: (usize, T)| x.0 == c).map_values(|x: (usize, T)| x.1) by {
                let f = |x: (usize, T)| x.0 == c;
                let g = |x: (usize, T)| x.1;
                assert(done0.push((bi, item)).drop_last() =~= done0);
                assert(done.filter(f) == if f((bi, item)) { done0.filter(f).push((bi, item)) } else { done0.filter(f) }) by {
                    reveal(Seq::filter);
                    assert(done.drop_last() =~= done0);
                    assert(done.last() == (bi, item));
                }
                if c == bi as int {
                    assert(done0.filter(f).push((bi, item)).map_values(g) =~= done0.filter(f).map_values(g).push(item));
                } else {
                    assert(out@[c] == out0[c]);
                }
            }
        }
    }
    proof {
        assert(done =~= all);
    }
    out
}

/// Absolute and relative frame numbers. The absolute count only grows; the
/// relative count restarts at 0 whenever the history images are rebuilt
/// (on resize), and drives the temporal ping-pong.
pub struct FrameCounters {
    pub absolute: u64,
    pub relative: u32,
}

impl FrameCounters {
    pub fn new() -> (c: Self)
        ensures
            c.absolute == 0 && c.relative == 0,
    {
        FrameCounters { absolute: 0, relative: 0 }
    }

    /// The frame that starts next: one past the absolute count.
    pub fn upcoming_frame(&self) -> (r: u64)
        requires
            self.absolute < u64::MAX,
        ensures
            r == self.absolute + 1,
    {
        self.absolute + 1
    }

    /// Begin a frame: returns the relative number of the frame being built and
    /// advances both counters.
    pub fn advance(&mut self) -> (frame: u32)
        requires
            old(self).absolute < u64::MAX,
            old(self).relative < u32::MAX,
        ensures
            frame == old(self).relative,
            final(self).relative == old(self).relative + 1,
            final(self).absolute == old(self).absolute + 1,
    {
        let frame = self.relative;
        self.relative = self.relative + 1;
        self.absolute = self.absolute + 1;
        frame
    }

    /// The history images were rebuilt: temporal accumulation restarts.
    pub fn restart_history(&mut self)
        ensures
            final(self).relative == 0,
            final(self).absolute == old(self).absolute,
    {
        self.relative = 0;
    }
}

/// Extra diagnostics tooling to enable in the Vulkan core.
#[derive(Clone, Copy, Debug, PartialEq, Eq, Structural)]
pub enum DiagnosticTool {
    /// No extra tooling.
    Off,
    NvidiaAftermath,
}

/// Renderer configuration from its environment flags.
#[derive(Clone, Copy, Debug, PartialEq, Eq, Structural)]
pub struct RendererConfig {
    pub with_validation_layer: bool,
    pub with_gpuav: bool,
    pub diagnostics: DiagnosticTool,
}

impl RendererConfig {
    /// The validation layer defaults to on in debug builds and off otherwise;
    /// GPU-assisted validation and Nsight Aftermath default to off.
    pub fn from_flags(validation: Option<bool>, gpuav: Option<bool>, aftermath: Option<bool>, is_debug_build: bool) -> (c: Self)
        ensures
            c.with_validation_layer == match validation {
                Some(v) => v,
                None => is_debug_build,
            },
            c.with_gpuav == (gpuav == Some(true)),
            c.diagnostics == (if aftermath == Some(true) { DiagnosticTool::NvidiaAftermath } else { DiagnosticTool::Off }),
    {
        let with_validation_layer = match validation {
            Some(v) => v,
            None => is_debug_build,
        };
        let with_gpuav = match gpuav {
            Some(v) => v,
            None => false,
        };
        let diagnostics = match aftermath {
            Some(true) => DiagnosticTool::NvidiaAftermath,
            _ => DiagnosticTool::Off,
        };
        RendererConfig { with_validation_layer, with_gpuav, diagnostics }
    }
}

/// `v`, with `dummy` put in when it is empty, so that it never yields an
/// empty GPU buffer.
pub fn pad_if_empty<T>(v: Vec<T>, dummy: T) -> (r: Vec<T>)
    ensures
        r@ == (if v@.len() == 0 { seq![dummy] } else { v@ }),
{
    let mut v = v;
    if v.len() == 0 {
        v.push(dummy);
        proof {
            assert(v@ =~= seq![dummy]);
        }
    }
    v
}

/// The internal images must be rebuilt only when the extent changes.
pub fn needs_resize(current: Extent3D, requested: Extent3D) -> (r: bool)
    ensures
        r == (current != requested),
{
    !(current.width == requested.width && current.height == requested.height && current.depth == requested.depth)
}

/// Bytes of a per-pixel buffer of `element_size`-byte elements.
pub fn per_pixel_buffer_size(extent: Extent3D, element_size: u64) -> (r: u64)
    requires
        extent.width * extent.height * element_size <= u64::MAX,
    ensures
        r == extent.width * extent.height * element_size,
{
    proof {
        assert(extent.width * extent.height <= u32::MAX * u32::MAX) by (nonlinear_arith);
    }
    let pixels = (extent.width as u64) * (extent.height as u64);
    pixels * element_size
}

/// `VK_FORMAT_UNDEFINED`.
pub const FORMAT_UNDEFINED: i32 = 0;
/// `VK_FORMAT_R8G8B8A8_SRGB`.
pub const FORMAT_R8G8B8A8_SRGB: i32 = 43;

/// The renderer's image format: the requested one, or `R8G8B8A8_SRGB` when
/// none (undefined) was requested.
pub fn renderer_image_format(requested: i32) -> (r: i32)
    ensures
        r == (if requested == FORMAT_UNDEFINED { FORMAT_R8G8B8A8_SRGB } else { requested }),
{
    if requested == FORMAT_UNDEFINED {
        FORMAT_R8G8B8A8_SRGB
    } else {
        requested
    }
}

/// The shader flag telling it to output sRGB: set for `R8G8B8A8_SRGB` images.
pub fn use_srgb_flag(format: i32) -> (r: u32)
    ensures
        r == (if format == FORMAT_R8G8B8A8_SRGB { 1u32 } else { 0u32 }),
{
    if format == FORMAT_R8G8B8A8_SRGB {
        1
    } else {
        0
    }
}

/// Workgroups to dispatch over a `width` x `height` image with 16 x 16
/// groups: enough to cover every pixel.
pub fn dispatch_groups(width: u32, height: u32) -> (r: [u32; 3])
    ensures
        r@ == seq![
            (width / 16 + if width % 16 == 0 { 0u32 } else { 1u32 }) as u32,
            (height / 16 + if height % 16 == 0 { 0u32 } else { 1u32 }) as u32,
            1u32,
        ],
        r[0] * 16 >= width && (r[0] as int - 1) * 16 < width,
        r[1] * 16 >= height && (r[1] as int - 1) * 16 < height,
{
    let gx = width / 16 + if width % 16 == 0 { 0 } else { 1 };
    let gy = height / 16 + if height % 16 == 0 { 0 } else { 1 };
    let r = [gx, gy, 1];
    proof {
        assert(r@ =~= seq![gx, gy, 1u32]);
    }
    r
}

/// The two corner offsets of a whole-image blit region: the origin and the
/// extent, as signed offsets (values past `i32::MAX` wrap, as `as` does).
pub fn blit_offsets(extent: Extent3D) -> (r: [[i32; 3]; 2])
    ensures
        r[0]@ == seq![0i32, 0i32, 0i32],
        r[1]@ == seq![extent.width as i32, extent.height as i32, extent.depth as i32],
{
    let r = [[0, 0, 0], [extent.width as i32, extent.height as i32, extent.depth as i32]];
    proof {
        assert(r[0]@ =~= seq![0i32, 0i32, 0i32]);
        assert(r[1]@ =~= seq![extent.width as i32, extent.height as i32, extent.depth as i32]);
    }
    r
}

/// The renderer's state apart from its GPU objects: frame counters, the
/// start- and end-of-frame callbacks (`C`), the resize callbacks (`R`), the
/// asset keys of every loaded scene (`K`) and the extent of the internal images.
pub struct Renderer<C, R, K> {
    counters: FrameCounters,
    start_of_frame_callbacks: FrameCallbacks<C>,
    end_of_frame_callbacks: FrameCallbacks<C>,
    resize_callbacks: Vec<R>,
    /// The registration positions of the resize callbacks run so far, in the
    /// order they ran.
    resize_runs: Ghost<Seq<int>>,
    scene_groups: SceneGroups<K>,
    image_extent: Extent3D,
}

impl<C, R, K> Renderer<C, R, K> {
    pub closed spec fn spec_absolute_frame(&self) -> u64 {
        self.counters.absolute
    }

    pub closed spec fn spec_relative_frame(&self) -> u32 {
        self.counters.relative
    }

    pub closed spec fn spec_start_callbacks(&self) -> Seq<(u64, C)> {
        self.start_of_frame_callbacks.spec_entries()
    }

    pub closed spec fn spec_end_callbacks(&self) -> Seq<(u64, C)> {
        self.end_of_frame_callbacks.spec_entries()
    }

    pub closed spec fn spec_resize_callbacks(&self) -> Seq<R> {
        self.resize_callbacks@
    }

    /// The registration positions of the resize callbacks run so far, in the
    /// order they ran.
    pub closed spec fn spec_resize_runs(&self) -> Seq<int> {
        self.resize_runs@
    }

    pub closed spec fn spec_scene_groups(&self) -> Map<u64, Vec<K>> {
        self.scene_groups.spec_groups()
    }

    pub closed spec fn spec_next_group(&self) -> u64 {
        self.scene_groups.spec_next_group()
    }

    pub closed spec fn spec_image_extent(&self) -> Extent3D {
        self.image_extent
    }


    /// A renderer for images of `image_extent` (depth one), before its first frame.
    pub fn new(image_extent: (u32, u32)) -> (r: Self)
        ensures
            r.spec_absolute_frame() == 0,
            r.spec_relative_frame() == 0,
            r.spec_start_callbacks().len() == 0,
            r.spec_end_callbacks().len() == 0,
            r.spec_resize_callbacks().len() == 0,
            r.spec_resize_runs() == Seq::<int>::empty(),
            r.spec_scene_groups() == Map::<u64, Vec<K>>::empty(),
            r.spec_next_group() == 0,
            r.spec_image_extent() == (Extent3D { width: image_extent.0, height: image_extent.1, depth: 1 }),
    {
        Renderer {
            counters: FrameCounters::new(),
            start_of_frame_callbacks: FrameCallbacks::new(),
            end_of_frame_callbacks: FrameCallbacks::new(),
            resize_callbacks: Vec::new(),
            resize_runs: Ghost(Seq::empty()),
            scene_groups: SceneGroups::new(),
            image_extent: tuple_to_extent3d(image_extent),
        }
    }

    pub fn image_extent(&self) -> (r: Extent3D)
        ensures
            r == self.spec_image_extent(),
    {
        self.image_extent
    }

    /// Schedule `callback` to run at the start of the next frame.
    pub fn add_start_of_frame_callback(&mut self, callback: C)
        requires
            old(self).spec_absolute_frame() < u64::MAX,
        ensures
            final(self).spec_start_callbacks() == old(self).spec_start_callbacks().push(((old(self).spec_absolute_frame() + 1) as u64, callback)),
            final(self).spec_end_callbacks() == old(self).spec_end_callbacks(),
            final(self).spec_absolute_frame() == old(self).spec_absolute_frame(),
            final(self).spec_relative_frame() == old(self).spec_relative_frame(),
    {
        let now = self.counters.absolute;
        self.start_of_frame_callbacks.schedule_next(now, callback);
    }

    /// Schedule `callback` to run once the next frame has completed on the
    /// GPU: dropping a GPU resource in it is then safe.
    pub fn add_end_of_frame_callback(&mut self, callback: C)
        requires
            old(self).spec_absolute_frame() < u64::MAX,
        ensures
            final(self).spec_end_callbacks() == old(self).spec_end_callbacks().push(((old(self).spec_absolute_frame() + 1) as u64, callback)),
            final(self).spec_start_callbacks() == old(self).spec_start_callbacks(),
            final(self).spec_absolute_frame() == old(self).spec_absolute_frame(),
            final(self).spec_relative_frame() == old(self).spec_relative_frame(),
    {
        let now = self.counters.absolute;
        self.end_of_frame_callbacks.schedule_next(now, callback);
    }

    /// Register a callback to run on every resize.
    pub fn add_resize_callback(&mut self, callback: R)
        ensures
            final(self).spec_resize_callbacks() == old(self).spec_resize_callbacks().push(callback),
            final(self).spec_start_callbacks() == old(self).spec_start_callbacks(),
            final(self).spec_end_callbacks() == old(self).spec_end_callbacks(),
            final(self).spec_absolute_frame() == old(self).spec_absolute_frame(),
    {
        self.resize_callbacks.push(callback);
    }

    /// The resize callbacks, for the caller to run.
    pub fn resize_callbacks_mut(&mut self) -> (r: &mut Vec<R>)
        ensures
            (*r)@ == old(self).spec_resize_callbacks(),
            final(self).spec_resize_callbacks() == (*final(r))@,
            final(self).spec_start_callbacks() == old(self).spec_start_callbacks(),
            final(self).spec_end_callbacks() == old(self).spec_end_callbacks(),
            final(self).spec_absolute_frame() == old(self).spec_absolute_frame(),
            final(self).spec_relative_frame() == old(self).spec_relative_frame(),
            final(self).spec_image_extent() == old(self).spec_image_extent(),
    {
        &mut self.resize_callbacks
    }

    /// Hand out, in the order they were scheduled, the start-of-frame
    /// callbacks due for `upcoming_frame`; the others stay.
    pub fn take_start_of_frame_callbacks(&mut self, upcoming_frame: u64) -> (due: Vec<C>)
        ensures
            due@ == due_callbacks(old(self).spec_start_callbacks(), upcoming_frame),
            final(self).spec_start_callbacks() == pending_callbacks(old(self).spec_start_callbacks(), upcoming_frame),
            final(self).spec_end_callbacks() == old(self).spec_end_callbacks(),
            final(self).spec_absolute_frame() == old(self).spec_absolute_frame(),
            final(self).spec_relative_frame() == old(self).spec_relative_frame(),
    {
        self.start_of_frame_callbacks.take_due(upcoming_frame)
    }

    /// Hand out the end-of-frame callbacks whose frame has completed on the
    /// GPU (`completed_frame` is the last completed frame), in scheduling order.
    pub fn take_due_end_of_frame_callbacks(&mut self, completed_frame: u64) -> (due: Vec<C>)
        ensures
            due@ == due_callbacks(old(self).spec_end_callbacks(), completed_frame),
            final(self).spec_end_callbacks() == pending_callbacks(old(self).spec_end_callbacks(), completed_frame),
            final(self).spec_start_callbacks() == old(self).spec_start_callbacks(),
            final(self).spec_absolute_frame() == old(self).spec_absolute_frame(),
            final(self).spec_relative_frame() == old(self).spec_relative_frame(),
    {
        self.end_of_frame_callbacks.take_due(completed_frame)
    }

    /// Hand out every pending end-of-frame callback, once the GPU is idle
    /// (the renderer is going away).
    pub fn take_all_end_of_frame_callbacks(&mut self) -> (all: Vec<C>)
        ensures
            all@ == due_callbacks(old(self).spec_end_callbacks(), u64::MAX),
            final(self).spec_end_callbacks().len() == 0,
    {
        let all = self.end_of_frame_callbacks.take_due(u64::MAX);
        proof {
            crate::frame::lemma_callbacks_split(old(self).spec_end_callbacks(), u64::MAX);
            let p = pending_callbacks(old(self).spec_end_callbacks(), u64::MAX);
            if p.len() > 0 {
                assert(p[0].0 > u64::MAX);
            }
        }
        all
    }

    /// Start a frame: the frame's absolute number (its value on the frame
    /// timeline) and its relative number (for the temporal ping-pong); both
    /// counters advance.
    pub fn begin_frame(&mut self) -> (r: (u64, u32))
        requires
            old(self).spec_absolute_frame() < u64::MAX,
            old(self).spec_relative_frame() < u32::MAX,
        ensures
            r.0 == old(self).spec_absolute_frame() + 1,
            r.1 == old(self).spec_relative_frame(),
            final(self).spec_absolute_frame() == old(self).spec_absolute_frame() + 1,
            final(self).spec_relative_frame() == old(self).spec_relative_frame() + 1,
            final(self).spec_start_callbacks() == old(self).spec_start_callbacks(),
            final(self).spec_end_callbacks() == old(self).spec_end_callbacks(),
    {
        let rel = self.counters.advance();
        (self.counters.absolute, rel)
    }

    /// Free the frame's per-frame objects once frame `frame` completes.
    pub fn end_frame(&mut self, frame: u64, cleanup: C)
        ensures
            final(self).spec_end_callbacks() == old(self).spec_end_callbacks().push((frame, cleanup)),
            final(self).spec_start_callbacks() == old(self).spec_start_callbacks(),
            final(self).spec_absolute_frame() == old(self).spec_absolute_frame(),
            final(self).spec_relative_frame() == old(self).spec_relative_frame(),
    {
        self.end_of_frame_callbacks.schedule_at(frame, cleanup);
    }

    /// Take a new image size: `true` when the internal images must be rebuilt
    /// (the extent changed), in which case the temporal history restarts.
    /// The caller then rebuilds the images and the swapchain and hands both
    /// outcomes to `finish_resize`, which runs the resize callbacks.
    pub fn resize(&mut self, image_extent: (u32, u32)) -> (rebuild: bool)
        ensures
            rebuild == (old(self).spec_image_extent() != (Extent3D { width: image_extent.0, height: image_extent.1, depth: 1 })),
            final(self).spec_image_extent() == (Extent3D { width: image_extent.0, height: image_extent.1, depth: 1 }),
            final(self).spec_relative_frame() == (if rebuild { 0 } else { old(self).spec_relative_frame() }),
            final(self).spec_absolute_frame() == old(self).spec_absolute_frame(),
            final(self).spec_resize_callbacks() == old(self).spec_resize_callbacks(),
    {
        let new_extent = tuple_to_extent3d(image_extent);
        let rebuild = needs_resize(self.image_extent, new_extent);
        if rebuild {
            self.image_extent = new_extent;
            self.counters.restart_history();
        }
        rebuild
    }

    /// Start loading a scene: the group its assets are keyed under.
    pub fn begin_scene_load(&mut self) -> (group: u64)
        requires
            old(self).spec_next_group() < u64::MAX,
        ensures
            group == old(self).spec_next_group(),
            final(self).spec_next_group() == group + 1,
            final(self).spec_scene_groups() == old(self).spec_scene_groups(),
    {
        self.scene_groups.begin_group()
    }

    /// Remember the asset keys a scene load created.
    pub fn finish_scene_load(&mut self, group: u64, keys: Vec<K>)
        ensures
            final(self).spec_scene_groups() == old(self).spec_scene_groups().insert(group, keys),
            final(self).spec_next_group() == old(self).spec_next_group(),
    {
        self.scene_groups.insert_group(group, keys);
    }

    /// Forget a loaded scene: the keys of its assets, to free them; `None`
    /// when the group is unknown (or already unloaded).
    pub fn unload_scene(&mut self, group: u64) -> (keys: Option<Vec<K>>)
        ensures
            final(self).spec_scene_groups() == old(self).spec_scene_groups().remove(group),
            keys == (if old(self).spec_scene_groups().contains_key(group) {
                Some(old(self).spec_scene_groups()[group])
            } else {
                None::<Vec<K>>
            }),
            final(self).spec_next_group() == old(self).spec_next_group(),
    {
        self.scene_groups.remove_group(group)
    }
}

/// The callbacks handed out at `t` are callbacks of the entries `s`.
proof fn lemma_due_are_entries<T>(s: Seq<(u64, T)>, t: u64)
    ensures
        forall|i: int| 0 <= i < due_callbacks(s, t).len() ==>
            exists|j: int| 0 <= j < s.len() && s[j].1 == #[trigger] due_callbacks(s, t)[i],
    decreases s.len(),
{
    if s.len() > 0 {
        lemma_due_are_entries(s.drop_first(), t);
        let d = due_callbacks(s, t);
        let d1 = due_callbacks(s.drop_first(), t);
        assert forall|i: int| 0 <= i < d.len() implies exists|j: int| 0 <= j < s.len() && s[j].1 == #[trigger] d[i] by {
            if s[0].0 <= t {
                if i == 0 {
                    assert(s[0].1 == d[0]);
                } else {
                    assert(d[i] == d1[i - 1]);
                    let j = choose|j: int| 0 <= j < s.drop_first().len() && s.drop_first()[j].1 == d1[i - 1];
                    assert(s[j + 1].1 == d[i]);
                }
            } else {
                assert(d[i] == d1[i]);
                let j = choose|j: int| 0 <= j < s.drop_first().len() && s.drop_first()[j].1 == d1[i];
                assert(s[j + 1].1 == d[i]);
            }
        }
    }
}

/// A start-of-frame callback added while the absolute frame count is `a`
/// runs at the start of the next frame, `a + 1`, last among the callbacks due
/// then, and is gone afterwards, so no later frame runs it again; a take for
/// an earlier frame leaves it pending.
pub proof fn lemma_start_callback_runs_in_next_frame<C>(before: Seq<(u64, C)>, a: u64, cb: C, t: u64)
    requires
        a < u64::MAX,
    ensures
        due_callbacks(before.push(((a + 1) as u64, cb)), (a + 1) as u64)
            == due_callbacks(before, (a + 1) as u64).push(cb),
        pending_callbacks(before.push(((a + 1) as u64, cb)), (a + 1) as u64)
            == pending_callbacks(before, (a + 1) as u64),
        t <= a ==> due_callbacks(before.push(((a + 1) as u64, cb)), t) == due_callbacks(before, t),
{
    crate::frame::lemma_callback_runs_when_due(before, (a + 1) as u64, cb, (a + 1) as u64);
    crate::frame::lemma_callback_runs_when_due(before, (a + 1) as u64, cb, t);
}

/// An end-of-frame callback added while the absolute frame count is `a` is
/// tagged with frame `a + 1`: a run for a last completed frame `c` runs it
/// exactly when `c >= a + 1`, that is only once its frame has completed, and
/// then removes it; before that it stays pending.
pub proof fn lemma_end_callback_runs_after_its_frame<C>(before: Seq<(u64, C)>, a: u64, cb: C, c: u64)
    requires
        a < u64::MAX,
    ensures
        c >= a + 1 ==> due_callbacks(before.push(((a + 1) as u64, cb)), c) == due_callbacks(before, c).push(cb)
            && pending_callbacks(before.push(((a + 1) as u64, cb)), c) == pending_callbacks(before, c),
        c < a + 1 ==> due_callbacks(before.push(((a + 1) as u64, cb)), c) == due_callbacks(before, c)
            && pending_callbacks(before.push(((a + 1) as u64, cb)), c) == pending_callbacks(before, c).push(((a + 1) as u64, cb)),
{
    crate::frame::lemma_callback_runs_when_due(before, (a + 1) as u64, cb, c);
}

/// Every callback of the entries `s` may be invoked.
pub open spec fn all_callable<C: FnOnce()>(s: Seq<(u64, C)>) -> bool {
    forall|i: int| 0 <= i < s.len() ==> (#[trigger] s[i]).1.requires(())
}

/// Every callback of `s` due at `t` was invoked.
pub open spec fn due_ran<C: FnOnce()>(s: Seq<(u64, C)>, t: u64) -> bool {
    forall|i: int| 0 <= i < due_callbacks(s, t).len() ==> call_ensures(#[trigger] due_callbacks(s, t)[i], (), ())
}

impl<C: FnOnce(), R, K> Renderer<C, R, K> {
    /// Run, in the order they were scheduled, the start-of-frame callbacks due
    /// for `upcoming_frame`, each once; the others stay for a later frame.
    pub fn run_start_of_frame_callbacks(&mut self, upcoming_frame: u64)
        requires
            all_callable(old(self).spec_start_callbacks()),
        ensures
            due_ran(old(self).spec_start_callbacks(), upcoming_frame),
            final(self).spec_start_callbacks() == pending_callbacks(old(self).spec_start_callbacks(), upcoming_frame),
            final(self).spec_end_callbacks() == old(self).spec_end_callbacks(),
            final(self).spec_absolute_frame() == old(self).spec_absolute_frame(),
            final(self).spec_relative_frame() == old(self).spec_relative_frame(),
    {
        let due = self.take_start_of_frame_callbacks(upcoming_frame);
        proof {
            lemma_due_are_entries(old(self).spec_start_callbacks(), upcoming_frame);
        }
        crate::frame::run_callbacks(due);
    }

    /// Run, in the order they were scheduled, the end-of-frame callbacks
    /// whose frame has completed on the GPU (`completed_frame` is the last
    /// completed frame), each once; the others stay.
    pub fn run_due_end_of_frame_callbacks(&mut self, completed_frame: u64)
        requires
            all_callable(old(self).spec_end_callbacks()),
        ensures
            due_ran(old(self).spec_end_callbacks(), completed_frame),
            final(self).spec_end_callbacks() == pending_callbacks(old(self).spec_end_callbacks(), completed_frame),
            final(self).spec_start_callbacks() == old(self).spec_start_callbacks(),
            final(self).spec_absolute_frame() == old(self).spec_absolute_frame(),
            final(self).spec_relative_frame() == old(self).spec_relative_frame(),
    {
        let due = self.take_due_end_of_frame_callbacks(completed_frame);
        proof {
            lemma_due_are_entries(old(self).spec_end_callbacks(), completed_frame);
        }
        crate::frame::run_callbacks(due);
    }

    /// Run every pending end-of-frame callback, in scheduling order, once the
    /// GPU is idle (the renderer is going away).
    pub fn run_all_end_of_frame_callbacks(&mut self)
        requires
            all_callable(old(self).spec_end_callbacks()),
        ensures
            due_ran(old(self).spec_end_callbacks(), u64::MAX),
            due_callbacks(old(self).spec_end_callbacks(), u64::MAX).len() == old(self).spec_end_callbacks().len(),
            final(self).spec_end_callbacks().len() == 0,
    {
        let all = self.take_all_end_of_frame_callbacks();
        proof {
            lemma_due_are_entries(old(self).spec_end_callbacks(), u64::MAX);
            crate::frame::lemma_callbacks_split(old(self).spec_end_callbacks(), u64::MAX);
            let p = pending_callbacks(old(self).spec_end_callbacks(), u64::MAX);
            if p.len() > 0 {
                assert(p[0].0 > u64::MAX);
            }
        }
        crate::frame::run_callbacks(all);
    }
}

impl<C, R: FnMut(), K> Renderer<C, R, K> {
    /// Finish a resize once the internal images and then the swapchain were
    /// rebuilt, given how each went: the first failure is returned and no
    /// resize callback runs (the callbacks are left as they were); when both
    /// succeeded every resize callback runs once, in registration order.
    pub fn finish_resize(&mut self, images: Result<(), SrError>, swapchain: Result<(), SrError>) -> (r: Result<(), SrError>)
        requires
            forall|i: int| 0 <= i < old(self).spec_resize_callbacks().len() ==> (#[trigger] old(self).spec_resize_callbacks()[i]).requires(()),
        ensures
            r == match (images, swapchain) {
                (Err(e), _) => Err(e),
                (Ok(()), Err(e)) => Err(e),
                (Ok(()), Ok(())) => Ok::<(), SrError>(()),
            },
            r is Err ==> final(self).spec_resize_callbacks() == old(self).spec_resize_callbacks()
                && final(self).spec_resize_runs() == old(self).spec_resize_runs(),
            r is Ok ==> final(self).spec_resize_runs() == old(self).spec_resize_runs()
                + Seq::new(old(self).spec_resize_callbacks().len(), |i: int| i),
            r is Ok ==> final(self).spec_resize_callbacks().len() == old(self).spec_resize_callbacks().len()
                && forall|i: int| 0 <= i < old(self).spec_resize_callbacks().len() ==>
                    call_ensures(#[trigger] old(self).spec_resize_callbacks()[i], (), ()),
            final(self).spec_start_callbacks() == old(self).spec_start_callbacks(),
            final(self).spec_end_callbacks() == old(self).spec_end_callbacks(),
            final(self).spec_absolute_frame() == old(self).spec_absolute_frame(),
            final(self).spec_relative_frame() == old(self).spec_relative_frame(),
            final(self).spec_image_extent() == old(self).spec_image_extent(),
    {
        match images {
            Err(e) => return Err(e),
            Ok(()) => {},
        }
        match swapchain {
            Err(e) => return Err(e),
            Ok(()) => {},
        }
        self.run_resize_callbacks();
        Ok(())
    }

    /// Run every resize callback once, in the order they were registered;
    /// they stay registered for the next resize. Callback `i` runs before
    /// callback `j` whenever `i < j`: the runs recorded are `0, 1, ..., n - 1`.
    pub fn run_resize_callbacks(&mut self)
        requires
            forall|i: int| 0 <= i < old(self).spec_resize_callbacks().len() ==> (#[trigger] old(self).spec_resize_callbacks()[i]).requires(()),
        ensures
            final(self).spec_resize_callbacks().len() == old(self).spec_resize_callbacks().len(),
            forall|i: int| 0 <= i < old(self).spec_resize_callbacks().len() ==>
                call_ensures(#[trigger] old(self).spec_resize_callbacks()[i], (), ()),
            final(self).spec_resize_runs() == old(self).spec_resize_runs()
                + Seq::new(old(self).spec_resize_callbacks().len(), |i: int| i),
            final(self).spec_start_callbacks() == old(self).spec_start_callbacks(),
            final(self).spec_end_callbacks() == old(self).spec_end_callbacks(),
            final(self).spec_absolute_frame() == old(self).spec_absolute_frame(),
            final(self).spec_relative_frame() == old(self).spec_relative_frame(),
            final(self).spec_image_extent() == old(self).spec_image_extent(),
    {
        let mut pending: Vec<R> = Vec::new();
        std::mem::swap(&mut pending, &mut self.resize_callbacks);
        let ghost all = pending@;
        let ghost runs0 = self.resize_runs@;
        proof {
            assert(all == old(self).spec_resize_callbacks());
            assert forall|i: int| 0 <= i < all.len() implies (#[trigger] all[i]).requires(()) by {
                assert(all[i] == old(self).spec_resize_callbacks()[i]);
            }
            assert(runs0 + Seq::new(0, |i: int| i) =~= runs0);
        }
        let mut kept: Vec<R> = Vec::new();
        let ghost mut n: int = 0;
        while pending.len() > 0
            invariant
                0 <= n <= all.len(),
                pending@ == all.subrange(n, all.len() as int),
                kept@.len() == n,
                forall|i: int| 0 <= i < all.len() ==> (#[trigger] all[i]).requires(()),
                forall|i: int| 0 <= i < n ==> call_ensures(#[trigger] all[i], (), ()),
                self.resize_runs@ == runs0 + Seq::new(n as nat, |i: int| i),
                self.counters == old(self).counters,
                self.start_of_frame_callbacks == old(self).start_of_frame_callbacks,
                self.end_of_frame_callbacks == old(self).end_of_frame_callbacks,
                self.image_extent == old(self).image_extent,
            decreases pending@.len(),
        {
            let f = pending.remove(0);
            proof {
                assert(f == all[n]);
            }
            let f = run_resize_callback(f, &mut self.resize_runs, Ghost(all), Ghost(n));
            kept.push(f);
            proof {
                assert((runs0 + Seq::new(n as nat, |i: int| i)).push(n) =~= runs0 + Seq::new((n + 1) as nat, |i: int| i));
                n = n + 1;
                assert(pending@ =~= all.subrange(n, all.len() as int));
            }
        }
        self.resize_callbacks = kept;
    }
}

/// Run the resize callback `f`, registered at position `i` of `all`, and
/// record the run.
fn run_resize_callback<R: FnMut()>(f: R, runs: &mut Ghost<Seq<int>>, Ghost(all): Ghost<Seq<R>>, Ghost(i): Ghost<int>) -> (g: R)
    requires
        0 <= i < all.len(),
        f == all[i],
        all[i].requires(()),
    ensures
        final(runs)@ == old(runs)@.push(i),
        call_ensures(all[i], (), ()),
{
    let mut f = f;
    f();
    *runs = Ghost(runs@.push(i));
    f
}

/// Resize callbacks run in registration order: after a run that recorded the
/// positions `0, ..., n - 1` behind the earlier runs `before`, callback `i`
/// ran before callback `j` whenever `i < j < n`.
pub proof fn lemma_resize_callbacks_run_in_order(before: Seq<int>, n: nat, i: int, j: int)
    requires
        0 <= i < j < n,
    ensures
        ({
            let after = before + Seq::new(n, |k: int| k);
            &&& after[before.len() + i] == i
            &&& after[before.len() + j] == j
            &&& before.len() + i < before.len() + j
        }),
{
}

} // verus!
