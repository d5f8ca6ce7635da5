//! The renderer's per-frame render graph: ray tracing (RIS audition, then final
//! shading), temporal accumulation, the a-trous denoise chain and
//! post-processing. The intermediate G-buffer / ray-tracing images are created
//! by the graph; the accumulation and denoise ping-pong images, the
//! post-process output and the reservoir buffers are imported.
use vstd::prelude::*;
use crate::error::SrError;
use crate::frame::{DenoiseImage, DENOISE_PASSES, accumulation_indices, denoise_io, denoise_io_spec, final_denoise_image, denoise_step_width};
use crate::render_graph::access::{AccessType, PassResourceAccessSyncType, PassResourceAccessType, spec_is_write_access};
use crate::render_graph::graph::RenderGraph;
use crate::render_graph::pass_builder::{
    AnyRenderPass, ComputeRenderPass, PassCommonData, PassCommonDataBuilder, RayTracingShaderDesc, RaytracingRenderPass,
    ShaderSource,
};
use crate::render_graph::compile::{CompiledGraph, compiled_from, schedule_order, lemma_schedule_orders_conflicting_accesses};
use crate::render_graph::graph::{pass_accesses, pass_list_events, compilable};
use crate::render_graph::hazard::{
    events_upto, events_of, lemma_pass_event_positions, lemma_events_prefix, usage_list, declared_ids, ref_event,
    lemma_usage_last, lemma_event_origin,
};
use crate::render_graph::graph_theory::{is_topo_order, listed};
use crate::frame::lemma_denoise_chain;
use crate::render_graph::resource::{
    Extent3D, GraphResourceDesc, GraphResourceImportInfo, GraphResourceInfo, Handle, ImageDesc, MemoryLocation, ResourceRef,
};

verus! {

/// `VK_FORMAT_B10G11R11_UFLOAT_PACK32`.
pub const FORMAT_B10G11R11_UFLOAT_PACK32: i32 = 122;
/// `VK_FORMAT_R16_SFLOAT`.
pub const FORMAT_R16_SFLOAT: i32 = 76;
/// `VK_FORMAT_R8G8B8A8_SNORM`.
pub const FORMAT_R8G8B8A8_SNORM: i32 = 38;
/// `VK_FORMAT_R16G16_SFLOAT`.
pub const FORMAT_R16G16_SFLOAT: i32 = 83;
/// `VK_IMAGE_USAGE_SAMPLED_BIT`.
pub const IMAGE_USAGE_SAMPLED: u32 = 4;
/// `VK_IMAGE_USAGE_STORAGE_BIT`.
pub const IMAGE_USAGE_STORAGE: u32 = 8;
/// `VK_IMAGE_TILING_OPTIMAL`.
pub const IMAGE_TILING_OPTIMAL: i32 = 0;

/// The SPIR-V of every stage the frame graph runs.
pub struct FrameShaders {
    pub ray_gen_ris: Vec<u8>,
    pub ray_gen_final: Vec<u8>,
    pub ray_miss: Vec<u8>,
    pub closest_hit: Vec<u8>,
    pub any_hit: Vec<u8>,
    pub temporal_accumulation: Vec<u8>,
    pub denoise: Vec<u8>,
    pub postprocess: Vec<u8>,
}

/// The persistent resources imported into the frame graph.
pub struct FrameImports {
    pub accumulation: [GraphResourceImportInfo; 2],
    pub denoising: [GraphResourceImportInfo; 2],
    pub postprocess_out: GraphResourceImportInfo,
    pub reservoirs: [GraphResourceImportInfo; 2],
    pub reservoirs_gi: [GraphResourceImportInfo; 2],
}

/// Handles of the frame graph's resources, and the filter step of each
/// denoise pass.
#[derive(Clone, Debug)]
pub struct FrameGraphHandles {
    pub raw_color: Handle,
    pub depth: Handle,
    pub normal: Handle,
    pub diffuse: Handle,
    pub motion: Handle,
    pub accumulation: [Handle; 2],
    pub denoise_a: Handle,
    pub denoise_b: Handle,
    pub postprocess_out: Handle,
    pub reservoirs: [Handle; 4],
    /// Denoise pass `d` (pass `3 + d` of the frame) filters with step
    /// `denoise_step_widths[d]`, which its push constants carry.
    pub denoise_step_widths: Vec<i32>,
}

pub open spec fn read_ref(id: u32, a: AccessType) -> ResourceRef {
    ResourceRef { id, access: PassResourceAccessType { access_type: a, sync_type: PassResourceAccessSyncType::NeverSync } }
}

pub open spec fn write_ref(id: u32, a: AccessType) -> ResourceRef {
    ResourceRef { id, access: PassResourceAccessType { access_type: a, sync_type: PassResourceAccessSyncType::AlwaysSync } }
}

pub open spec fn reads_of(l: Seq<(Handle, AccessType)>) -> Seq<ResourceRef> {
    l.map_values(|x: (Handle, AccessType)| read_ref(x.0.id, x.1))
}

pub open spec fn writes_of(l: Seq<(Handle, AccessType)>) -> Seq<ResourceRef> {
    l.map_values(|x: (Handle, AccessType)| write_ref(x.0.id, x.1))
}

/// Declare one pass's reads and writes; the pass takes the graph's next pass id.
fn declare_pass(
    rg: &mut RenderGraph,
    name: String,
    reads: Vec<(Handle, AccessType)>,
    writes: Vec<(Handle, AccessType)>,
) -> (d: PassCommonData)
    requires
        old(rg).spec_next_pass_id() < u32::MAX,
        forall|i: int| 0 <= i < reads@.len() ==> !spec_is_write_access(#[trigger] reads@[i].1),
        forall|i: int| 0 <= i < writes@.len() ==> spec_is_write_access(#[trigger] writes@[i].1),
    ensures
        d.read@ == reads_of(reads@),
        d.write@ == writes_of(writes@),
        d.name@ == name@,
        d.id == old(rg).spec_next_pass_id(),
        final(rg).spec_next_pass_id() == old(rg).spec_next_pass_id() + 1,
        final(rg).same_except_pass_id(*old(rg)),
{
    let ghost id0 = rg.spec_next_pass_id();
    let mut b = PassCommonDataBuilder::new(rg, name);
    let mut i: usize = 0;
    while i < reads.len()
        invariant
            i <= reads@.len(),
            forall|k: int| 0 <= k < reads@.len() ==> !spec_is_write_access(#[trigger] reads@[k].1),
            b.spec_data().read@ == reads_of(reads@.take(i as int)),
            b.spec_data().write@ == Seq::<ResourceRef>::empty(),
            b.spec_data().id == id0,
            b.spec_data().name@ == name@,
        decreases reads@.len() - i,
    {
        let (h, a) = reads[i];
        let _ = b.read(&h, a);
        proof {
            assert(reads_of(reads@.take(i + 1)) =~= reads_of(reads@.take(i as int)).push(read_ref(h.id, a)));
        }
        i = i + 1;
    }
    let mut j: usize = 0;
    while j < writes.len()
        invariant
            j <= writes@.len(),
            forall|k: int| 0 <= k < writes@.len() ==> spec_is_write_access(#[trigger] writes@[k].1),
            b.spec_data().read@ == reads_of(reads@),
            b.spec_data().write@ == writes_of(writes@.take(j as int)),
            b.spec_data().id == id0,
            b.spec_data().name@ == name@,
        decreases writes@.len() - j,
    {
        let (h, a) = writes[j];
        let _ = b.write(&h, a);
        proof {
            assert(writes_of(writes@.take(j + 1)) =~= writes_of(writes@.take(j as int)).push(write_ref(h.id, a)));
        }
        j = j + 1;
    }
    proof {
        assert(reads@.take(reads@.len() as int) =~= reads@);
        assert(writes@.take(writes@.len() as int) =~= writes@);
    }
    b.build()
}

/// A copy of a SPIR-V blob.
fn copy_bytes(v: &Vec<u8>) -> (r: Vec<u8>)
    ensures
        r@ == v@,
{
    let r = v.clone();
    proof {
        assert(r@ =~= v@);
    }
    r
}

/// `p` is a ray-tracing pass tracing `extent` with ray-gen SPIR-V `ray_gen`.
pub open spec fn is_rt_pass(p: AnyRenderPass, ray_gen: Seq<u8>, extent: Extent3D) -> bool {
    match p {
        AnyRenderPass::Rt(rt) => {
            &&& rt.trace_extent@ == seq![extent.width, extent.height, extent.depth]
            &&& match rt.ray_gen.shader {
                ShaderSource::Spirv(b) => b@ == ray_gen,
                _ => false,
            }
        },
        _ => false,
    }
}

/// `p` is a compute pass running the single SPIR-V module `spirv`.
pub open spec fn is_compute_pass(p: AnyRenderPass, spirv: Seq<u8>) -> bool {
    match p {
        AnyRenderPass::Compute(c) => c.shaders@.len() == 1 && match c.shaders@[0] {
            ShaderSource::Spirv(b) => b@ == spirv,
            _ => false,
        },
        _ => false,
    }
}

/// A ray-tracing pass over `extent` with the given ray-gen stage and the
/// shared miss / closest-hit / any-hit stages.
fn rt_pass(common: PassCommonData, ray_gen: &Vec<u8>, shaders: &FrameShaders, extent: Extent3D) -> (p: AnyRenderPass)
    ensures
        p.spec_common() == common,
        is_rt_pass(p, ray_gen@, extent),
{
    let rt = RaytracingRenderPass {
        common,
        ray_gen: RayTracingShaderDesc { shader: ShaderSource::Spirv(copy_bytes(ray_gen)) },
        closest_hit: vec![RayTracingShaderDesc { shader: ShaderSource::Spirv(copy_bytes(&shaders.closest_hit)) }],
        miss: vec![RayTracingShaderDesc { shader: ShaderSource::Spirv(copy_bytes(&shaders.ray_miss)) }],
        any_hit: vec![RayTracingShaderDesc { shader: ShaderSource::Spirv(copy_bytes(&shaders.any_hit)) }],
        trace_extent: [extent.width, extent.height, extent.depth],
    };
    proof {
        assert(rt.trace_extent@ =~= seq![extent.width, extent.height, extent.depth]);
    }
    AnyRenderPass::Rt(rt)
}

/// A compute pass running `spirv`'s `main`.
fn compute_pass(common: PassCommonData, spirv: &Vec<u8>) -> (p: AnyRenderPass)
    ensures
        p.spec_common() == common,
        is_compute_pass(p, spirv@),
{
    let shaders = vec![ShaderSource::Spirv(copy_bytes(spirv))];
    AnyRenderPass::Compute(ComputeRenderPass { common, shaders, entry_point: "main".to_string() })
}

/// The id of a denoise image given the handles of this frame.
pub open spec fn denoise_image_id(img: DenoiseImage, accumulated: u32, a: u32, b: u32) -> u32 {
    match img {
        DenoiseImage::Accumulated => accumulated,
        DenoiseImage::A => a,
        DenoiseImage::B => b,
    }
}

/// Resource ids of the frame graph, in the order they are registered.
pub open spec fn raw_color_id() -> u32 { 0 }
pub open spec fn depth_id() -> u32 { 1 }
pub open spec fn normal_id() -> u32 { 2 }
pub open spec fn diffuse_id() -> u32 { 3 }
pub open spec fn motion_id() -> u32 { 4 }
pub open spec fn accumulation_id(i: int) -> u32 { (5 + i) as u32 }
pub open spec fn denoise_a_id() -> u32 { 7 }
pub open spec fn denoise_b_id() -> u32 { 8 }
pub open spec fn postprocess_out_id() -> u32 { 9 }
pub open spec fn reservoir_id(i: int) -> u32 { (10 + i) as u32 }

/// The reads and writes of pass `k` of the frame graph of frame `frame_count`.
pub open spec fn frame_pass_io(k: int, frame_count: u32) -> (Seq<ResourceRef>, Seq<ResourceRef>) {
    let target = accumulation_id((frame_count % 2) as int);
    let history = accumulation_id(((frame_count + 1) % 2) as int);
    if k == 0 {
        (Seq::empty(), seq![
            write_ref(raw_color_id(), AccessType::General),
            write_ref(depth_id(), AccessType::General),
            write_ref(normal_id(), AccessType::General),
            write_ref(diffuse_id(), AccessType::General),
            write_ref(motion_id(), AccessType::General),
            write_ref(reservoir_id(0), AccessType::AnyShaderWrite),
            write_ref(reservoir_id(1), AccessType::AnyShaderWrite),
            write_ref(reservoir_id(2), AccessType::AnyShaderWrite),
            write_ref(reservoir_id(3), AccessType::AnyShaderWrite),
        ])
    } else if k == 1 {
        (seq![
            read_ref(reservoir_id(0), AccessType::RayTracingShaderReadOther),
            read_ref(reservoir_id(1), AccessType::RayTracingShaderReadOther),
            read_ref(reservoir_id(2), AccessType::RayTracingShaderReadOther),
            read_ref(reservoir_id(3), AccessType::RayTracingShaderReadOther),
        ], seq![
            write_ref(raw_color_id(), AccessType::General),
            write_ref(depth_id(), AccessType::General),
            write_ref(normal_id(), AccessType::General),
            write_ref(diffuse_id(), AccessType::General),
            write_ref(motion_id(), AccessType::General),
        ])
    } else if k == 2 {
        (seq![
            read_ref(raw_color_id(), AccessType::ComputeShaderReadOther),
            read_ref(motion_id(), AccessType::ComputeShaderReadOther),
            read_ref(history, AccessType::ComputeShaderReadOther),
        ], seq![write_ref(target, AccessType::ComputeShaderWrite)])
    } else if 3 <= k < 3 + DENOISE_PASSES {
        let d = (k - 3) as u32;
        let io = denoise_io_spec(d);
        let rd = denoise_image_id(io.0, target, denoise_a_id(), denoise_b_id());
        let wr = denoise_image_id(io.1, target, denoise_a_id(), denoise_b_id());
        let first = seq![read_ref(rd, AccessType::ComputeShaderReadOther)];
        (if d == 0 {
            first + seq![
                read_ref(depth_id(), AccessType::ComputeShaderReadSampledImageOrUniformTexelBuffer),
                read_ref(normal_id(), AccessType::ComputeShaderReadSampledImageOrUniformTexelBuffer),
                read_ref(diffuse_id(), AccessType::ComputeShaderReadSampledImageOrUniformTexelBuffer),
            ]
        } else {
            first
        }, seq![write_ref(wr, AccessType::ComputeShaderWrite)])
    } else {
        (seq![read_ref(denoise_b_id(), AccessType::ComputeShaderReadOther)],
         seq![write_ref(postprocess_out_id(), AccessType::ComputeShaderWrite)])
    }
}

/// Number of passes of the frame graph: two ray-tracing passes, temporal
/// accumulation, the denoise chain and post-processing.
pub open spec fn frame_pass_count() -> nat {
    (4 + DENOISE_PASSES) as nat
}

/// A created storage image of `extent` with `format`, `usage` and `name`.
pub open spec fn is_frame_image(info: GraphResourceInfo, extent: Extent3D, format: i32, usage: u32, name: Seq<char>) -> bool {
    info matches GraphResourceInfo::Created(GraphResourceDesc::Image(d)) && d.extent == extent && d.format == format
        && d.usage == usage && d.tiling == IMAGE_TILING_OPTIMAL && d.location == MemoryLocation::GpuOnly
        && d.name@ == name
}

/// The registry of the frame graph: the five G-buffer / ray-tracing images,
/// then the imported images and reservoir buffers.
pub open spec fn frame_resources_ok(r: Seq<GraphResourceInfo>, imports: FrameImports, extent: Extent3D) -> bool {
    &&& r.len() == 14
    &&& is_frame_image(r[0], extent, FORMAT_B10G11R11_UFLOAT_PACK32, IMAGE_USAGE_STORAGE, "rg_rt_raw_color"@)
    &&& is_frame_image(r[1], extent, FORMAT_R16_SFLOAT, IMAGE_USAGE_STORAGE | IMAGE_USAGE_SAMPLED, "rg_depth"@)
    &&& is_frame_image(r[2], extent, FORMAT_R8G8B8A8_SNORM, IMAGE_USAGE_STORAGE | IMAGE_USAGE_SAMPLED, "rg_normal"@)
    &&& is_frame_image(r[3], extent, FORMAT_B10G11R11_UFLOAT_PACK32, IMAGE_USAGE_STORAGE | IMAGE_USAGE_SAMPLED, "rg_diffuse"@)
    &&& is_frame_image(r[4], extent, FORMAT_R16G16_SFLOAT, IMAGE_USAGE_STORAGE, "rg_motion_vec"@)
    &&& r[5] == GraphResourceInfo::Imported(imports.accumulation[0])
    &&& r[6] == GraphResourceInfo::Imported(imports.accumulation[1])
    &&& r[7] == GraphResourceInfo::Imported(imports.denoising[0])
    &&& r[8] == GraphResourceInfo::Imported(imports.denoising[1])
    &&& r[9] == GraphResourceInfo::Imported(imports.postprocess_out)
    &&& r[10] == GraphResourceInfo::Imported(imports.reservoirs[0])
    &&& r[11] == GraphResourceInfo::Imported(imports.reservoirs[1])
    &&& r[12] == GraphResourceInfo::Imported(imports.reservoirs_gi[0])
    &&& r[13] == GraphResourceInfo::Imported(imports.reservoirs_gi[1])
}

/// Only the pass list of `g` changed from `g0`, by one pass at its end, and
/// the pass-id counter advanced by one.
pub open spec fn one_pass_added(g: RenderGraph, g0: RenderGraph) -> bool {
    &&& g.spec_passes().len() == g0.spec_passes().len() + 1
    &&& g.spec_passes().drop_last() == g0.spec_passes()
    &&& g.spec_next_pass_id() == g0.spec_next_pass_id() + 1
    &&& g.wf() == g0.wf()
    &&& g.spec_resources() == g0.spec_resources()
    &&& g.spec_temporal() == g0.spec_temporal()
    &&& g.spec_swapchain_id() == g0.spec_swapchain_id()
    &&& g.spec_end_states() == g0.spec_end_states()
}

/// The RIS audition pass: writes the five G-buffer / ray-tracing outputs
/// (`General`, as vk-sync has no ray-tracing write access) and the four
/// reservoir buffers, so that the final pass's reservoir reads wait for it.
fn add_raytracing_ris_pass(rg: &mut RenderGraph, shaders: &FrameShaders, h: &FrameGraphHandles, extent: Extent3D)
    requires
        old(rg).spec_next_pass_id() < u32::MAX,
    ensures
        one_pass_added(*final(rg), *old(rg)),
        final(rg).spec_passes().last().spec_common().read@ == Seq::<ResourceRef>::empty(),
        final(rg).spec_passes().last().spec_common().write@ == seq![
            write_ref(h.raw_color.id, AccessType::General),
            write_ref(h.depth.id, AccessType::General),
            write_ref(h.normal.id, AccessType::General),
            write_ref(h.diffuse.id, AccessType::General),
            write_ref(h.motion.id, AccessType::General),
            write_ref(h.reservoirs[0].id, AccessType::AnyShaderWrite),
            write_ref(h.reservoirs[1].id, AccessType::AnyShaderWrite),
            write_ref(h.reservoirs[2].id, AccessType::AnyShaderWrite),
            write_ref(h.reservoirs[3].id, AccessType::AnyShaderWrite),
        ],
        is_rt_pass(final(rg).spec_passes().last(), shaders.ray_gen_ris@, extent),
        final(rg).spec_passes().last().spec_common().name@ == "raytracing_ris"@,
{
    let reads: Vec<(Handle, AccessType)> = Vec::new();
    let writes = vec![
        (h.raw_color, AccessType::General),
        (h.depth, AccessType::General),
        (h.normal, AccessType::General),
        (h.diffuse, AccessType::General),
        (h.motion, AccessType::General),
        (h.reservoirs[0], AccessType::AnyShaderWrite),
        (h.reservoirs[1], AccessType::AnyShaderWrite),
        (h.reservoirs[2], AccessType::AnyShaderWrite),
        (h.reservoirs[3], AccessType::AnyShaderWrite),
    ];
    let common = declare_pass(rg, "raytracing_ris".to_string(), reads, writes);
    let pass = rt_pass(common, &shaders.ray_gen_ris, shaders, extent);
    rg.add_render_pass(pass);
    proof {
        assert(rg.spec_passes().drop_last() =~= old(rg).spec_passes());
        assert(common.write@ =~= seq![
            write_ref(h.raw_color.id, AccessType::General),
            write_ref(h.depth.id, AccessType::General),
            write_ref(h.normal.id, AccessType::General),
            write_ref(h.diffuse.id, AccessType::General),
            write_ref(h.motion.id, AccessType::General),
            write_ref(h.reservoirs[0].id, AccessType::AnyShaderWrite),
            write_ref(h.reservoirs[1].id, AccessType::AnyShaderWrite),
            write_ref(h.reservoirs[2].id, AccessType::AnyShaderWrite),
            write_ref(h.reservoirs[3].id, AccessType::AnyShaderWrite),
        ]);
        assert(common.read@ =~= Seq::<ResourceRef>::empty());
    }
}

/// The final shading pass: re-declares the RIS pass's G-buffer writes (the
/// write-after-write hazard orders it after RIS) and reads the reservoirs the
/// RIS pass wrote.
fn add_raytracing_final_pass(rg: &mut RenderGraph, shaders: &FrameShaders, h: &FrameGraphHandles, extent: Extent3D)
    requires
        old(rg).spec_next_pass_id() < u32::MAX,
    ensures
        one_pass_added(*final(rg), *old(rg)),
        final(rg).spec_passes().last().spec_common().read@ == seq![
            read_ref(h.reservoirs[0].id, AccessType::RayTracingShaderReadOther),
            read_ref(h.reservoirs[1].id, AccessType::RayTracingShaderReadOther),
            read_ref(h.reservoirs[2].id, AccessType::RayTracingShaderReadOther),
            read_ref(h.reservoirs[3].id, AccessType::RayTracingShaderReadOther),
        ],
        final(rg).spec_passes().last().spec_common().write@ == seq![
            write_ref(h.raw_color.id, AccessType::General),
            write_ref(h.depth.id, AccessType::General),
            write_ref(h.normal.id, AccessType::General),
            write_ref(h.diffuse.id, AccessType::General),
            write_ref(h.motion.id, AccessType::General),
        ],
        is_rt_pass(final(rg).spec_passes().last(), shaders.ray_gen_final@, extent),
        final(rg).spec_passes().last().spec_common().name@ == "raytracing_final"@,
{
    let reads = vec![
        (h.reservoirs[0], AccessType::RayTracingShaderReadOther),
        (h.reservoirs[1], AccessType::RayTracingShaderReadOther),
        (h.reservoirs[2], AccessType::RayTracingShaderReadOther),
        (h.reservoirs[3], AccessType::RayTracingShaderReadOther),
    ];
    let writes = vec![
        (h.raw_color, AccessType::General),
        (h.depth, AccessType::General),
        (h.normal, AccessType::General),
        (h.diffuse, AccessType::General),
        (h.motion, AccessType::General),
    ];
    let common = declare_pass(rg, "raytracing_final".to_string(), reads, writes);
    let pass = rt_pass(common, &shaders.ray_gen_final, shaders, extent);
    rg.add_render_pass(pass);
    proof {
        assert(rg.spec_passes().drop_last() =~= old(rg).spec_passes());
        assert(common.read@ =~= seq![
            read_ref(h.reservoirs[0].id, AccessType::RayTracingShaderReadOther),
            read_ref(h.reservoirs[1].id, AccessType::RayTracingShaderReadOther),
            read_ref(h.reservoirs[2].id, AccessType::RayTracingShaderReadOther),
            read_ref(h.reservoirs[3].id, AccessType::RayTracingShaderReadOther),
        ]);
        assert(common.write@ =~= seq![
            write_ref(h.raw_color.id, AccessType::General),
            write_ref(h.depth.id, AccessType::General),
            write_ref(h.normal.id, AccessType::General),
            write_ref(h.diffuse.id, AccessType::General),
            write_ref(h.motion.id, AccessType::General),
        ]);
    }
}

/// Temporal accumulation: reads this frame's ray-traced color and motion
/// vectors and last frame's accumulation, writes this frame's accumulation.
fn add_temporal_pass(rg: &mut RenderGraph, shaders: &FrameShaders, raw_color: Handle, motion: Handle, history: Handle, target: Handle)
    requires
        old(rg).spec_next_pass_id() < u32::MAX,
    ensures
        one_pass_added(*final(rg), *old(rg)),
        final(rg).spec_passes().last().spec_common().read@ == seq![
            read_ref(raw_color.id, AccessType::ComputeShaderReadOther),
            read_ref(motion.id, AccessType::ComputeShaderReadOther),
            read_ref(history.id, AccessType::ComputeShaderReadOther),
        ],
        final(rg).spec_passes().last().spec_common().write@ == seq![write_ref(target.id, AccessType::ComputeShaderWrite)],
        is_compute_pass(final(rg).spec_passes().last(), shaders.temporal_accumulation@),
        final(rg).spec_passes().last().spec_common().name@ == "temporal_accumulation"@,
{
    let reads = vec![
        (raw_color, AccessType::ComputeShaderReadOther),
        (motion, AccessType::ComputeShaderReadOther),
        (history, AccessType::ComputeShaderReadOther),
    ];
    let writes = vec![(target, AccessType::ComputeShaderWrite)];
    let common = declare_pass(rg, "temporal_accumulation".to_string(), reads, writes);
    let pass = compute_pass(common, &shaders.temporal_accumulation);
    rg.add_render_pass(pass);
    proof {
        assert(rg.spec_passes().drop_last() =~= old(rg).spec_passes());
        assert(common.read@ =~= seq![
            read_ref(raw_color.id, AccessType::ComputeShaderReadOther),
            read_ref(motion.id, AccessType::ComputeShaderReadOther),
            read_ref(history.id, AccessType::ComputeShaderReadOther),
        ]);
        assert(common.write@ =~= seq![write_ref(target.id, AccessType::ComputeShaderWrite)]);
    }
}

/// Post-processing: tone-maps the last denoise output into the output image.
fn add_postprocess_pass(rg: &mut RenderGraph, shaders: &FrameShaders, denoise_in: Handle, out: Handle)
    requires
        old(rg).spec_next_pass_id() < u32::MAX,
    ensures
        one_pass_added(*final(rg), *old(rg)),
        final(rg).spec_passes().last().spec_common().read@ == seq![read_ref(denoise_in.id, AccessType::ComputeShaderReadOther)],
        final(rg).spec_passes().last().spec_common().write@ == seq![write_ref(out.id, AccessType::ComputeShaderWrite)],
        is_compute_pass(final(rg).spec_passes().last(), shaders.postprocess@),
        final(rg).spec_passes().last().spec_common().name@ == "postprocess"@,
{
    let reads = vec![(denoise_in, AccessType::ComputeShaderReadOther)];
    let writes = vec![(out, AccessType::ComputeShaderWrite)];
    let common = declare_pass(rg, "postprocess".to_string(), reads, writes);
    let pass = compute_pass(common, &shaders.postprocess);
    rg.add_render_pass(pass);
    proof {
        assert(rg.spec_passes().drop_last() =~= old(rg).spec_passes());
        assert(common.read@ =~= seq![read_ref(denoise_in.id, AccessType::ComputeShaderReadOther)]);
        assert(common.write@ =~= seq![write_ref(out.id, AccessType::ComputeShaderWrite)]);
    }
}

/// Name of denoise pass `d`: `denoise_` and the index.
pub open spec fn denoise_name(d: u32) -> Seq<char> {
    if d == 0 { "denoise_0"@ } else if d == 1 { "denoise_1"@ } else if d == 2 { "denoise_2"@ }
    else if d == 3 { "denoise_3"@ } else if d == 4 { "denoise_4"@ } else if d == 5 { "denoise_5"@ }
    else if d == 6 { "denoise_6"@ } else { "denoise_7"@ }
}

fn denoise_pass_name(pass_index: u32) -> (r: String)
    requires
        pass_index < DENOISE_PASSES,
    ensures
        r@ == denoise_name(pass_index),
{
    let s = if pass_index == 0 { "denoise_0" } else if pass_index == 1 { "denoise_1" } else if pass_index == 2 { "denoise_2" }
        else if pass_index == 3 { "denoise_3" } else if pass_index == 4 { "denoise_4" } else if pass_index == 5 { "denoise_5" }
        else if pass_index == 6 { "denoise_6" } else { "denoise_7" };
    s.to_string()
}

/// The handle of a denoise image.
fn denoise_handle(img: DenoiseImage, accumulated: Handle, a: Handle, b: Handle) -> (h: Handle)
    ensures
        h.id == denoise_image_id(img, accumulated.id, a.id, b.id),
{
    match img {
        DenoiseImage::Accumulated => accumulated,
        DenoiseImage::A => a,
        DenoiseImage::B => b,
    }
}

/// The reads and writes of denoise pass `d` over the given handles.
pub open spec fn denoise_pass_io(d: u32, accumulated: u32, a: u32, b: u32, depth: u32, normal: u32, diffuse: u32)
    -> (Seq<ResourceRef>, Seq<ResourceRef>)
{
    let io = denoise_io_spec(d);
    let first = seq![read_ref(denoise_image_id(io.0, accumulated, a, b), AccessType::ComputeShaderReadOther)];
    (if d == 0 {
        first + seq![
            read_ref(depth, AccessType::ComputeShaderReadSampledImageOrUniformTexelBuffer),
            read_ref(normal, AccessType::ComputeShaderReadSampledImageOrUniformTexelBuffer),
            read_ref(diffuse, AccessType::ComputeShaderReadSampledImageOrUniformTexelBuffer),
        ]
    } else {
        first
    }, seq![write_ref(denoise_image_id(io.1, accumulated, a, b), AccessType::ComputeShaderWrite)])
}

/// The a-trous denoise chain. Depth, normal and diffuse are declared as
/// sampled reads only by the first pass, which registers their transition;
/// the later passes read the same images without re-declaring them.
fn add_denoise_passes(
    rg: &mut RenderGraph,
    shaders: &FrameShaders,
    accumulated: Handle,
    depth: Handle,
    normal: Handle,
    diffuse: Handle,
    a: Handle,
    b: Handle,
) -> (steps: Vec<i32>)
    requires
        old(rg).spec_next_pass_id() + DENOISE_PASSES < u32::MAX,
    ensures
        steps@.len() == DENOISE_PASSES,
        forall|d: int| 0 <= d < DENOISE_PASSES ==> #[trigger] steps@[d] == vstd::arithmetic::power2::pow2(d as nat),
        final(rg).spec_passes().len() == old(rg).spec_passes().len() + DENOISE_PASSES,
        final(rg).spec_passes().take(old(rg).spec_passes().len() as int) == old(rg).spec_passes(),
        final(rg).spec_next_pass_id() == old(rg).spec_next_pass_id() + DENOISE_PASSES,
        final(rg).wf() == old(rg).wf(),
        final(rg).spec_resources() == old(rg).spec_resources(),
        final(rg).spec_temporal() == old(rg).spec_temporal(),
        final(rg).spec_swapchain_id() == old(rg).spec_swapchain_id(),
        final(rg).spec_end_states() == old(rg).spec_end_states(),
        forall|d: int| 0 <= d < DENOISE_PASSES ==> {
            let p = #[trigger] final(rg).spec_passes()[old(rg).spec_passes().len() + d];
            &&& (p.spec_common().read@, p.spec_common().write@)
                == denoise_pass_io(d as u32, accumulated.id, a.id, b.id, depth.id, normal.id, diffuse.id)
            &&& is_compute_pass(p, shaders.denoise@)
            &&& p.spec_common().name@ == denoise_name(d as u32)
        },
{
    let ghost base = rg.spec_passes().len();
    let ghost g0 = *rg;
    let mut steps: Vec<i32> = Vec::new();
    let mut pass_index: u32 = 0;
    while pass_index < DENOISE_PASSES
        invariant
            pass_index <= DENOISE_PASSES,
            steps@.len() == pass_index,
            forall|d: int| 0 <= d < pass_index ==> #[trigger] steps@[d] == vstd::arithmetic::power2::pow2(d as nat),
            rg.spec_passes().len() == base + pass_index,
            rg.spec_passes().take(base as int) == g0.spec_passes(),
            base == g0.spec_passes().len(),
            rg.spec_next_pass_id() == g0.spec_next_pass_id() + pass_index,
            g0.spec_next_pass_id() + DENOISE_PASSES < u32::MAX,
            rg.wf() == g0.wf(),
            rg.spec_resources() == g0.spec_resources(),
            rg.spec_temporal() == g0.spec_temporal(),
            rg.spec_swapchain_id() == g0.spec_swapchain_id(),
            rg.spec_end_states() == g0.spec_end_states(),
            forall|d: int| 0 <= d < pass_index ==> {
                let p = #[trigger] rg.spec_passes()[base + d];
                &&& (p.spec_common().read@, p.spec_common().write@)
                    == denoise_pass_io(d as u32, accumulated.id, a.id, b.id, depth.id, normal.id, diffuse.id)
                &&& is_compute_pass(p, shaders.denoise@)
                &&& p.spec_common().name@ == denoise_name(d as u32)
            },
        decreases DENOISE_PASSES - pass_index,
    {
        let (rd, wr) = denoise_io(pass_index);
        let read_h = denoise_handle(rd, accumulated, a, b);
        let write_h = denoise_handle(wr, accumulated, a, b);
        let mut reads = vec![(read_h, AccessType::ComputeShaderReadOther)];
        if pass_index == 0 {
            reads.push((depth, AccessType::ComputeShaderReadSampledImageOrUniformTexelBuffer));
            reads.push((normal, AccessType::ComputeShaderReadSampledImageOrUniformTexelBuffer));
            reads.push((diffuse, AccessType::ComputeShaderReadSampledImageOrUniformTexelBuffer));
        }
        let writes = vec![(write_h, AccessType::ComputeShaderWrite)];
        steps.push(denoise_step_width(pass_index));
        let ghost before = rg.spec_passes();
        let common = declare_pass(rg, denoise_pass_name(pass_index), reads, writes);
        let pass = compute_pass(common, &shaders.denoise);
        rg.add_render_pass(pass);
        proof {
            let io = denoise_pass_io(pass_index, accumulated.id, a.id, b.id, depth.id, normal.id, diffuse.id);
            assert(common.read@ =~= io.0);
            assert(common.write@ =~= io.1);
            assert(rg.spec_passes().take(base as int) =~= before.take(base as int));
            assert forall|d: int| 0 <= d < pass_index + 1 implies {
                let p = #[trigger] rg.spec_passes()[base + d];
                &&& (p.spec_common().read@, p.spec_common().write@)
                    == denoise_pass_io(d as u32, accumulated.id, a.id, b.id, depth.id, normal.id, diffuse.id)
                &&& is_compute_pass(p, shaders.denoise@)
                &&& p.spec_common().name@ == denoise_name(d as u32)
            } by {
                if d < pass_index {
                    assert(rg.spec_passes()[base + d] == before[base + d]);
                }
            }
        }
        pass_index = pass_index + 1;
    }
    steps
}

/// A graph-created storage image of the frame.
fn frame_image(extent: Extent3D, format: i32, usage: u32, name: String) -> (d: GraphResourceDesc)
    ensures
        is_frame_image(GraphResourceInfo::Created(d), extent, format, usage, name@),
{
    GraphResourceDesc::Image(ImageDesc {
        extent,
        format,
        tiling: IMAGE_TILING_OPTIMAL,
        location: MemoryLocation::GpuOnly,
        usage,
        name,
    })
}

/// Pass `k` of a frame graph of frame `frame_count` runs the stage the frame
/// assigns it: the two ray-tracing passes with their ray-gen stages, the
/// temporal, denoise and post-process compute shaders.
pub open spec fn frame_pass_kind_ok(p: AnyRenderPass, k: int, shaders: FrameShaders, extent: Extent3D) -> bool {
    if k == 0 {
        is_rt_pass(p, shaders.ray_gen_ris@, extent) && p.spec_common().name@ == "raytracing_ris"@
    } else if k == 1 {
        is_rt_pass(p, shaders.ray_gen_final@, extent) && p.spec_common().name@ == "raytracing_final"@
    } else if k == 2 {
        is_compute_pass(p, shaders.temporal_accumulation@) && p.spec_common().name@ == "temporal_accumulation"@
    } else if 3 <= k < 3 + DENOISE_PASSES {
        is_compute_pass(p, shaders.denoise@) && p.spec_common().name@ == denoise_name((k - 3) as u32)
    } else {
        is_compute_pass(p, shaders.postprocess@) && p.spec_common().name@ == "postprocess"@
    }
}

/// Reset `rg` and declare this frame's graph: the G-buffer / ray-tracing
/// images, the imported ping-pong images, output image and reservoirs, and
/// the passes: RIS audition, final shading, temporal accumulation (into
/// accumulation image `frame_count % 2`, from the other one), the denoise
/// chain and post-processing of the last denoise output.
pub fn build_frame_graph(
    rg: &mut RenderGraph,
    shaders: &FrameShaders,
    imports: &FrameImports,
    extent: Extent3D,
    frame_count: u32,
) -> (r: Result<FrameGraphHandles, SrError>)
    requires
        frame_count < u32::MAX,
    ensures
        r is Ok,
        final(rg).wf(),
        frame_resources_ok(final(rg).spec_resources(), *imports, extent),
        final(rg).spec_passes().len() == frame_pass_count(),
        compilable(final(rg).spec_passes()),
        forall|k: int| 0 <= k < frame_pass_count() ==> {
            let p = #[trigger] final(rg).spec_passes()[k];
            &&& (p.spec_common().read@, p.spec_common().write@) == frame_pass_io(k, frame_count)
            &&& frame_pass_kind_ok(p, k, *shaders, extent)
        },
        final(rg).spec_next_pass_id() == frame_pass_count(),
        final(rg).spec_temporal() == old(rg).spec_temporal(),
        final(rg).spec_swapchain_id() == None::<u32>,
        final(rg).spec_end_states() == Seq::<crate::render_graph::graph::ResourceEndState>::empty(),
        r matches Ok(h) ==> {
            &&& h.raw_color.id == raw_color_id() && h.depth.id == depth_id() && h.normal.id == normal_id()
            &&& h.diffuse.id == diffuse_id() && h.motion.id == motion_id()
            &&& h.accumulation[0].id == accumulation_id(0) && h.accumulation[1].id == accumulation_id(1)
            &&& h.denoise_a.id == denoise_a_id() && h.denoise_b.id == denoise_b_id()
            &&& h.postprocess_out.id == postprocess_out_id()
            &&& forall|i: int| 0 <= i < 4 ==> (#[trigger] h.reservoirs[i]).id == reservoir_id(i)
            &&& h.denoise_step_widths@.len() == DENOISE_PASSES
            &&& forall|d: int| 0 <= d < DENOISE_PASSES ==>
                #[trigger] h.denoise_step_widths@[d] == vstd::arithmetic::power2::pow2(d as nat)
        },
{
    let (accum_idx, history_idx) = accumulation_indices(frame_count);
    rg.reset();

    // graph-created (transient) ray-tracing outputs
    let raw_color = rg.create_resource(frame_image(extent, FORMAT_B10G11R11_UFLOAT_PACK32, IMAGE_USAGE_STORAGE, "rg_rt_raw_color".to_string()));
    let depth = rg.create_resource(frame_image(extent, FORMAT_R16_SFLOAT, IMAGE_USAGE_STORAGE | IMAGE_USAGE_SAMPLED, "rg_depth".to_string()));
    let normal = rg.create_resource(frame_image(extent, FORMAT_R8G8B8A8_SNORM, IMAGE_USAGE_STORAGE | IMAGE_USAGE_SAMPLED, "rg_normal".to_string()));
    let diffuse = rg.create_resource(frame_image(extent, FORMAT_B10G11R11_UFLOAT_PACK32, IMAGE_USAGE_STORAGE | IMAGE_USAGE_SAMPLED, "rg_diffuse".to_string()));
    let motion = rg.create_resource(frame_image(extent, FORMAT_R16G16_SFLOAT, IMAGE_USAGE_STORAGE, "rg_motion_vec".to_string()));

    // imported (persistent) resources
    let accum0 = rg.import(imports.accumulation[0]);
    let accum1 = rg.import(imports.accumulation[1]);
    let denoise_a = rg.import(imports.denoising[0]);
    let denoise_b = rg.import(imports.denoising[1]);
    let postprocess_out = rg.import(imports.postprocess_out);
    let reservoir0 = rg.import(imports.reservoirs[0]);
    let reservoir1 = rg.import(imports.reservoirs[1]);
    let reservoir_gi0 = rg.import(imports.reservoirs_gi[0]);
    let reservoir_gi1 = rg.import(imports.reservoirs_gi[1]);

    let mut h = FrameGraphHandles {
        raw_color,
        depth,
        normal,
        diffuse,
        motion,
        accumulation: [accum0, accum1],
        denoise_a,
        denoise_b,
        postprocess_out,
        reservoirs: [reservoir0, reservoir1, reservoir_gi0, reservoir_gi1],
        denoise_step_widths: Vec::new(),
    };
    let accum_target = if accum_idx == 0 { accum0 } else { accum1 };
    let accum_history = if history_idx == 0 { accum0 } else { accum1 };
    let ghost resources = rg.spec_resources();

    add_raytracing_ris_pass(rg, shaders, &h, extent);
    let ghost g1 = *rg;
    add_raytracing_final_pass(rg, shaders, &h, extent);
    let ghost g2 = *rg;
    add_temporal_pass(rg, shaders, raw_color, motion, accum_history, accum_target);
    let ghost g3 = *rg;
    h.denoise_step_widths = add_denoise_passes(rg, shaders, accum_target, depth, normal, diffuse, denoise_a, denoise_b);
    let ghost g4 = *rg;
    let denoise_input = if final_denoise_image() == DenoiseImage::A { denoise_a } else { denoise_b };
    add_postprocess_pass(rg, shaders, denoise_input, postprocess_out);

    proof {
        assert(frame_resources_ok(resources, *imports, extent));
        let ps = rg.spec_passes();
        assert(ps.len() == frame_pass_count());
        assert(ps.take(11) =~= g4.spec_passes());
        assert(g4.spec_passes().take(3) =~= g3.spec_passes());
        assert(g3.spec_passes().take(2) =~= g2.spec_passes());
        assert(g2.spec_passes().take(1) =~= g1.spec_passes());
        assert(ps[0] == g1.spec_passes()[0]);
        assert(ps[1] == g2.spec_passes()[1]);
        assert(ps[2] == g3.spec_passes()[2]);
        assert forall|k: int| 0 <= k < frame_pass_count() implies {
            let p = #[trigger] ps[k];
            &&& (p.spec_common().read@, p.spec_common().write@) == frame_pass_io(k, frame_count)
            &&& frame_pass_kind_ok(p, k, *shaders, extent)
        } by {
            if 3 <= k < 11 {
                assert(ps[k] == g4.spec_passes()[3 + (k - 3)]);
            }
            if k == 0 {
                assert(frame_pass_io(0, frame_count).1 =~= g1.spec_passes()[0].spec_common().write@);
            }
        }
    }
    proof {
        crate::render_graph::compile::lemma_small_pass_lists_compile(rg.spec_passes());
    }
    Ok(h)
}

/// Pass `k + 1` touches, at read `m` (or write `m` when `second_writes`), the
/// resource that pass `k` writes at write `w`: in a compiled schedule, pass
/// `k` comes first.
proof fn lemma_consecutive_passes_ordered(
    cg: CompiledGraph,
    passes: Seq<AnyRenderPass>,
    resources: Seq<GraphResourceInfo>,
    k: int,
    w: int,
    second_writes: bool,
    m: int,
    a: int,
    b: int,
)
    requires
        compiled_from(cg, passes, resources),
        passes.len() <= usize::MAX,
        0 <= k,
        k + 1 < passes.len(),
        0 <= w < passes[k].spec_common().write@.len(),
        second_writes ==> 0 <= m < passes[k + 1].spec_common().write@.len(),
        !second_writes ==> 0 <= m < passes[k + 1].spec_common().read@.len(),
        passes[k].spec_common().write@[w].id == (if second_writes {
            passes[k + 1].spec_common().write@[m].id
        } else {
            passes[k + 1].spec_common().read@[m].id
        }),
        0 <= a < cg.schedule@.len(),
        0 <= b < cg.schedule@.len(),
        cg.schedule@[a].pass_id == k,
        cg.schedule@[b].pass_id == k + 1,
    ensures
        a < b,
{
    let ps = pass_accesses(passes);
    let evs = pass_list_events(passes);
    lemma_pass_event_positions(ps, k as nat);
    lemma_pass_event_positions(ps, (k + 1) as nat);
    lemma_events_prefix(ps, (k + 2) as nat, ps.len());
    let base_k = events_upto(ps, k as nat).len() as int;
    let base_k1 = events_upto(ps, (k + 1) as nat).len() as int;
    assert(ps[k] == (passes[k].spec_common().read@, passes[k].spec_common().write@));
    assert(ps[k + 1] == (passes[k + 1].spec_common().read@, passes[k + 1].spec_common().write@));
    let i = base_k + ps[k].0.len() + w;
    let j = if second_writes { base_k1 + ps[k + 1].0.len() + m } else { base_k1 + m };
    assert(evs[i] == crate::render_graph::hazard::ref_event(k as usize, true, ps[k].1[w]));
    if second_writes {
        assert(evs[j] == crate::render_graph::hazard::ref_event((k + 1) as usize, true, ps[k + 1].1[m]));
    } else {
        assert(evs[j] == crate::render_graph::hazard::ref_event((k + 1) as usize, false, ps[k + 1].0[m]));
    }
    lemma_schedule_orders_conflicting_accesses(cg, passes, resources, i, j, a, b);
}

/// A schedule of passes `0..n` in which each pass comes before the next is
/// the declaration order.
proof fn lemma_chain_is_identity(order: Seq<usize>, n: nat, pos: Seq<int>)
    requires
        order.len() == n,
        pos.len() == n,
        forall|k: int| 0 <= k < n ==> 0 <= #[trigger] pos[k] < n && order[pos[k]] == k,
        forall|k: int| 0 <= k && k + 1 < n ==> #[trigger] pos[k] < pos[k + 1],
    ensures
        order == Seq::new(n, |i: int| i as usize),
{
    assert forall|k: int| 0 <= k < n implies #[trigger] pos[k] >= k by {
        lemma_chain_lower(pos, n, k);
    }
    assert forall|k: int| 0 <= k < n implies #[trigger] pos[k] <= k by {
        lemma_chain_upper(pos, n, k);
    }
    assert(order =~= Seq::new(n, |i: int| i as usize)) by {
        assert forall|i: int| 0 <= i < n implies order[i] == i as usize by {
            assert(pos[i] == i);
        }
    }
}

proof fn lemma_chain_lower(pos: Seq<int>, n: nat, k: int)
    requires
        pos.len() == n,
        0 <= k < n,
        forall|j: int| 0 <= j < n ==> 0 <= #[trigger] pos[j] < n,
        forall|j: int| 0 <= j && j + 1 < n ==> #[trigger] pos[j] < pos[j + 1],
    ensures
        pos[k] >= k,
    decreases k,
{
    if k > 0 {
        lemma_chain_lower(pos, n, k - 1);
        assert(pos[k - 1] < pos[k]);
    }
}

proof fn lemma_chain_upper(pos: Seq<int>, n: nat, k: int)
    requires
        pos.len() == n,
        0 <= k < n,
        forall|j: int| 0 <= j < n ==> 0 <= #[trigger] pos[j] < n,
        forall|j: int| 0 <= j && j + 1 < n ==> #[trigger] pos[j] < pos[j + 1],
    ensures
        pos[k] <= k + (pos[n - 1] - (n - 1)),
    decreases n - k,
{
    if k + 1 < n {
        lemma_chain_upper(pos, n, k + 1);
        assert(pos[k] < pos[k + 1]);
    }
}

/// The frame graph runs its passes in the order they are declared: ray
/// tracing (RIS, then final), temporal accumulation, the denoise chain, then
/// post-processing. Each pass touches a resource the one before it writes,
/// so a compiled schedule of the frame graph has no other order.
pub proof fn lemma_frame_graph_runs_in_order(
    cg: CompiledGraph,
    passes: Seq<AnyRenderPass>,
    resources: Seq<GraphResourceInfo>,
    frame_count: u32,
)
    requires
        compiled_from(cg, passes, resources),
        frame_count < u32::MAX,
        passes.len() == frame_pass_count(),
        forall|k: int| 0 <= k < frame_pass_count() ==>
            ((#[trigger] passes[k]).spec_common().read@, passes[k].spec_common().write@) == frame_pass_io(k, frame_count),
    ensures
        schedule_order(cg.schedule@) == Seq::new(frame_pass_count(), |i: int| i as usize),
{
    let n = frame_pass_count();
    let order = schedule_order(cg.schedule@);
    assert(is_topo_order(n, crate::render_graph::compile::pass_list_edges(passes), order));
    let pos = Seq::new(n, |k: int| choose|i: int| 0 <= i < n && order[i] == k as usize);
    assert forall|k: int| 0 <= k < n implies 0 <= #[trigger] pos[k] < n && order[pos[k]] == k by {
        assert(listed(order, k as usize));
    }
    assert forall|k: int| 0 <= k && k + 1 < n implies #[trigger] pos[k] < pos[k + 1] by {
        let a = pos[k];
        let b = pos[k + 1];
        assert(order[a] == k as usize && order[b] == (k + 1) as usize);
        assert(cg.schedule@[a].pass_id == k && cg.schedule@[b].pass_id == k + 1);
        let io_k = frame_pass_io(k, frame_count);
        let io_k1 = frame_pass_io(k + 1, frame_count);
        assert(passes[k].spec_common().write@ == io_k.1);
        assert(passes[k + 1].spec_common().write@ == io_k1.1);
        assert(passes[k + 1].spec_common().read@ == io_k1.0);
        if k == 0 {
            lemma_consecutive_passes_ordered(cg, passes, resources, k, 0, true, 0, a, b);
        } else if k == 1 {
            lemma_consecutive_passes_ordered(cg, passes, resources, k, 0, false, 0, a, b);
        } else if k == 2 {
            lemma_consecutive_passes_ordered(cg, passes, resources, k, 0, false, 0, a, b);
        } else if k < 10 {
            lemma_denoise_chain((k + 1 - 3) as u32);
            lemma_consecutive_passes_ordered(cg, passes, resources, k, 0, false, 0, a, b);
        } else {
            lemma_consecutive_passes_ordered(cg, passes, resources, k, 0, false, 0, a, b);
        }
    }
    lemma_chain_is_identity(order, n, pos);
}

/// No pass after the first denoise pass declares either accumulation image.
proof fn lemma_late_passes_skip_accumulation(k: int, frame_count: u32)
    requires
        4 <= k < frame_pass_count(),
    ensures
        !declared_ids(frame_pass_io(k, frame_count)).contains(accumulation_id(0)),
        !declared_ids(frame_pass_io(k, frame_count)).contains(accumulation_id(1)),
{
    let io = frame_pass_io(k, frame_count);
    let ids = declared_ids(io);
    assert(ids =~= io.0.map_values(|x: ResourceRef| x.id) + io.1.map_values(|x: ResourceRef| x.id));
    assert forall|i: int| 0 <= i < ids.len() implies ids[i] != accumulation_id(0) && ids[i] != accumulation_id(1) by {
        if k < 3 + DENOISE_PASSES {
            let d = (k - 3) as u32;
            assert(d >= 1);
            assert(denoise_io_spec(d).0 != DenoiseImage::Accumulated);
            assert(denoise_io_spec(d).1 != DenoiseImage::Accumulated);
            if i < io.0.len() {
                assert(ids[i] == io.0[i].id);
            } else {
                assert(ids[i] == io.1[i - io.0.len()].id);
            }
        } else {
            if i < io.0.len() {
                assert(ids[i] == io.0[i].id);
            } else {
                assert(ids[i] == io.1[i - io.0.len()].id);
            }
        }
    }
}

/// Consecutive frames swap the accumulation images. In the frame graph of
/// frame `frame_count`, the target (accumulation image `frame_count % 2`) is
/// last used by the first denoise pass, which reads it; the history (the
/// other one) is last used by the temporal pass, which reads it. So after
/// compiling, the target's end state names pass 3 and the history's pass 2,
/// left in a compute-shader read.
pub proof fn lemma_accumulation_last_uses(passes: Seq<AnyRenderPass>, frame_count: u32)
    requires
        frame_count < u32::MAX,
        passes.len() == frame_pass_count(),
        forall|k: int| 0 <= k < frame_pass_count() ==>
            ((#[trigger] passes[k]).spec_common().read@, passes[k].spec_common().write@) == frame_pass_io(k, frame_count),
    ensures
        ({
            let evs = pass_list_events(passes);
            let read = PassResourceAccessType {
                access_type: AccessType::ComputeShaderReadOther,
                sync_type: PassResourceAccessSyncType::NeverSync,
            };
            &&& usage_list(evs, evs.len() as int, accumulation_id((frame_count % 2) as int)).len() > 0
            &&& usage_list(evs, evs.len() as int, accumulation_id((frame_count % 2) as int)).last() == (3usize, read)
            &&& usage_list(evs, evs.len() as int, accumulation_id(((frame_count + 1) % 2) as int)).len() > 0
            &&& usage_list(evs, evs.len() as int, accumulation_id(((frame_count + 1) % 2) as int)).last() == (2usize, read)
        }),
{
    let ps = pass_accesses(passes);
    let evs = pass_list_events(passes);
    let n = frame_pass_count();
    assert(evs == events_upto(ps, n));
    assert forall|k: int| 0 <= k < n implies #[trigger] ps[k] == frame_pass_io(k, frame_count) by {
        assert(passes[k].spec_common().read@ == frame_pass_io(k, frame_count).0);
    }
    let t = accumulation_id((frame_count % 2) as int);
    let h = accumulation_id(((frame_count + 1) % 2) as int);
    assert(t != h);
    assert(t == accumulation_id(0) || t == accumulation_id(1));
    assert(h == accumulation_id(0) || h == accumulation_id(1));
    lemma_pass_event_positions(ps, 2);
    lemma_pass_event_positions(ps, 3);
    let base2 = events_upto(ps, 2).len() as int;
    let base3 = events_upto(ps, 3).len() as int;
    let base4 = events_upto(ps, 4).len() as int;
    lemma_events_prefix(ps, n, n);
    lemma_events_prefix(ps, 4, n);
    assert(base3 == base2 + 4);
    assert(base4 == base3 + 5);
    // the target's last touch: the first denoise pass reads it
    assert(evs[base3] == ref_event(3, false, ps[3].0[0]));
    assert(evs[base3].res == t);
    assert forall|m: int| base3 < m < evs.len() implies #[trigger] evs[m].res != t by {
        lemma_event_origin(ps, n, m);
        let p = evs[m].pass as int;
        if p < 3 {
            lemma_events_prefix(ps, (p + 1) as nat, 3);
        } else if p == 3 {
            let k = m - base3;
            if k < 4 {
                assert(evs[base3 + k] == ref_event(3, false, ps[3].0[k]));
            } else {
                assert(evs[base3 + 4 + (k - 4)] == ref_event(3, true, ps[3].1[k - 4]));
            }
        } else {
            lemma_late_passes_skip_accumulation(p, frame_count);
        }
    }
    lemma_usage_last(evs, evs.len() as int, t, base3);
    // the history's last touch: the temporal pass reads it
    assert(evs[base2 + 2] == ref_event(2, false, ps[2].0[2]));
    assert(evs[base2 + 2].res == h);
    assert forall|m: int| base2 + 2 < m < evs.len() implies #[trigger] evs[m].res != h by {
        lemma_event_origin(ps, n, m);
        let p = evs[m].pass as int;
        if p < 2 {
            lemma_events_prefix(ps, (p + 1) as nat, 2);
        } else if p == 2 {
            assert(m == base2 + 3);
            assert(evs[base2 + 3 + 0] == ref_event(2, true, ps[2].1[0]));
        } else if p == 3 {
            let k = m - base3;
            if k < 4 {
                assert(evs[base3 + k] == ref_event(3, false, ps[3].0[k]));
            } else {
                assert(evs[base3 + 4 + (k - 4)] == ref_event(3, true, ps[3].1[k - 4]));
            }
        } else {
            lemma_late_passes_skip_accumulation(p, frame_count);
        }
    }
    lemma_usage_last(evs, evs.len() as int, h, base2 + 2);
}

} // verus!
