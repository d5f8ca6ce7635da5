//! Passes: what each declares it reads and writes, and the builders that put
//! those declarations together.
use vstd::prelude::*;
use crate::error::{ErrorSource, SrError, with_backtrace_note};
use crate::render_graph::access::{AccessType, PassResourceAccessSyncType, PassResourceAccessType, spec_is_write_access, spec_access_name};
use crate::render_graph::error::GraphError;
use crate::render_graph::graph::RenderGraph;
use crate::render_graph::resource::{Handle, ResourceRef};

verus! {

/// The declarations every pass carries: its reads, its writes, a name and the
/// id it was given by the graph. The recording function of a pass is attached
/// by the caller that owns the GPU side of the graph.
#[derive(Debug)]
pub struct PassCommonData {
    pub read: Vec<ResourceRef>,
    pub write: Vec<ResourceRef>,
    pub name: String,
    pub id: u32,
}

/// Builds the common data of one pass, checking that reads use read accesses
/// and writes use write accesses.
pub struct PassCommonDataBuilder {
    pass_common_data: PassCommonData,
}

impl PassCommonDataBuilder {
    pub closed spec fn spec_data(&self) -> PassCommonData {
        self.pass_common_data
    }

    /// Start the declarations of a new pass; the pass takes the graph's next pass id.
    pub fn new(rg: &mut RenderGraph, name: String) -> (b: Self)
        requires
            old(rg).spec_next_pass_id() < u32::MAX,
        ensures
            b.spec_data().read@ == Seq::<ResourceRef>::empty(),
            b.spec_data().write@ == Seq::<ResourceRef>::empty(),
            b.spec_data().name@ == name@,
            b.spec_data().id == old(rg).spec_next_pass_id(),
            final(rg).spec_next_pass_id() == old(rg).spec_next_pass_id() + 1,
            final(rg).same_except_pass_id(*old(rg)),
    {
        let id = rg.next_pass_id();
        PassCommonDataBuilder { pass_common_data: PassCommonData { read: Vec::new(), write: Vec::new(), name, id } }
    }

    /// Finish the declarations.
    pub fn build(self) -> (d: PassCommonData)
        ensures
            d == self.spec_data(),
    {
        self.pass_common_data
    }

    /// Declare a read of `resource`. A write access is refused.
    pub fn read(&mut self, resource: &Handle, access_type: AccessType) -> (r: Result<(), SrError>)
        ensures
            spec_is_write_access(access_type) <==> r is Err,
            r is Ok ==> final(self).spec_data().read@ == old(self).spec_data().read@.push(ResourceRef {
                id: resource.id,
                access: PassResourceAccessType { access_type, sync_type: PassResourceAccessSyncType::NeverSync },
            }),
            r is Ok ==> final(self).spec_data().write@ == old(self).spec_data().write@,
            r is Err ==> final(self).spec_data() == old(self).spec_data(),
            r matches Err(e) ==> e.spec_source() == Some(ErrorSource::RenderGraph(GraphError::IncorrectRenderAccessFlags))
                && with_backtrace_note("asked to read with such access: "@ + spec_access_name(access_type), e.spec_description()),
            final(self).spec_data().name == old(self).spec_data().name,
            final(self).spec_data().id == old(self).spec_data().id,
    {
        if !access_type.is_write_access() {
            self.pass_common_data.read.push(ResourceRef {
                id: resource.id,
                access: PassResourceAccessType { access_type, sync_type: PassResourceAccessSyncType::NeverSync },
            });
            Ok(())
        } else {
            let mut d = "asked to read with such access: ".to_string();
            d.append(access_type.name());
            let e = SrError::new(Some(ErrorSource::RenderGraph(GraphError::IncorrectRenderAccessFlags)), d);
            Err(e)
        }
    }

    /// Declare a write of `resource`. A read-only access is refused.
    pub fn write(&mut self, resource: &Handle, access_type: AccessType) -> (r: Result<(), SrError>)
        ensures
            !spec_is_write_access(access_type) <==> r is Err,
            r is Ok ==> final(self).spec_data().write@ == old(self).spec_data().write@.push(ResourceRef {
                id: resource.id,
                access: PassResourceAccessType { access_type, sync_type: PassResourceAccessSyncType::AlwaysSync },
            }),
            r is Ok ==> final(self).spec_data().read@ == old(self).spec_data().read@,
            r is Err ==> final(self).spec_data() == old(self).spec_data(),
            r matches Err(e) ==> e.spec_source() == Some(ErrorSource::RenderGraph(GraphError::IncorrectRenderAccessFlags))
                && with_backtrace_note("asked to write with such access: "@ + spec_access_name(access_type), e.spec_description()),
            final(self).spec_data().name == old(self).spec_data().name,
            final(self).spec_data().id == old(self).spec_data().id,
    {
        if access_type.is_write_access() {
            self.pass_common_data.write.push(ResourceRef {
                id: resource.id,
                access: PassResourceAccessType { access_type, sync_type: PassResourceAccessSyncType::AlwaysSync },
            });
            Ok(())
        } else {
            let mut d = "asked to write with such access: ".to_string();
            d.append(access_type.name());
            let e = SrError::new(Some(ErrorSource::RenderGraph(GraphError::IncorrectRenderAccessFlags)), d);
            Err(e)
        }
    }
}

/// Where a shader comes from.
#[derive(Clone, Debug)]
pub enum ShaderSource {
    /// A GLSL file to compile.
    Glsl(String),
    /// Pre-compiled SPIR-V bytes.
    Spirv(Vec<u8>),
}

/// Marker for shader descriptions.
pub trait ShaderDesc {}

/// Which binding of a shader a descriptor operation targets.
#[derive(Clone, Debug)]
pub enum BindingIntent {
    Single { name: String },
    ArrayElement { name: String, array_index: u32 },
}

#[derive(Clone, Copy, Debug, PartialEq, Eq, Structural)]
pub enum RayTracingPipelineStage {
    RayGen,
    RayMiss,
    RayClosestHit,
}

#[derive(Clone, Copy, Debug, PartialEq, Eq, Structural)]
pub enum RasterPipelineStage {
    Vertex,
    Pixel,
}

/// One ray-tracing stage's shader.
#[derive(Debug)]
pub struct RayTracingShaderDesc {
    pub shader: ShaderSource,
}

/// One raster stage's shader.
#[derive(Debug)]
pub struct RasterShaderDesc {
    pub shader: ShaderSource,
    pub pipeline_stage: RasterPipelineStage,
}

/// A compute pass's shader.
#[derive(Debug)]
pub struct ComputeShaderDesc {
    pub shader: ShaderSource,
}

impl ShaderDesc for RayTracingShaderDesc {}
impl ShaderDesc for RasterShaderDesc {}
impl ShaderDesc for ComputeShaderDesc {}

/// A ray-tracing pass.
#[derive(Debug)]
pub struct RaytracingRenderPass {
    pub common: PassCommonData,
    pub ray_gen: RayTracingShaderDesc,
    pub closest_hit: Vec<RayTracingShaderDesc>,
    pub miss: Vec<RayTracingShaderDesc>,
    pub any_hit: Vec<RayTracingShaderDesc>,
    pub trace_extent: [u32; 3],
}

/// A raster pass.
#[derive(Debug)]
pub struct RasterRenderPass {
    pub common: PassCommonData,
}

/// A compute pass.
#[derive(Debug)]
pub struct ComputeRenderPass {
    pub common: PassCommonData,
    pub shaders: Vec<ShaderSource>,
    pub entry_point: String,
}

/// Any pass the graph schedules.
#[derive(Debug)]
pub enum AnyRenderPass {
    Rt(RaytracingRenderPass),
    Raster(RasterRenderPass),
    Compute(ComputeRenderPass),
}

impl AnyRenderPass {
    pub open spec fn spec_common(&self) -> PassCommonData {
        match self {
            AnyRenderPass::Rt(p) => p.common,
            AnyRenderPass::Raster(p) => p.common,
            AnyRenderPass::Compute(p) => p.common,
        }
    }

    /// The reads and writes this pass declares.
    pub fn common(&self) -> (c: &PassCommonData)
        ensures
            *c == self.spec_common(),
    {
        match self {
            AnyRenderPass::Rt(p) => &p.common,
            AnyRenderPass::Raster(p) => &p.common,
            AnyRenderPass::Compute(p) => &p.common,
        }
    }
}

/// Why a pass builder could not build: a field that has no default was
/// never set.
#[derive(Debug)]
pub enum BuilderError {
    UninitializedField(String),
}

impl BuilderError {
    pub open spec fn spec_field(&self) -> Seq<char> {
        match self {
            BuilderError::UninitializedField(f) => f@,
        }
    }
}

/// Builds a `RaytracingRenderPass`. The shader lists start unset; `add_*`
/// appends to a list (setting it); only `any_hit` defaults to empty.
pub struct RaytracingRenderPassBuilder {
    pub common: Option<PassCommonData>,
    pub ray_gen: Option<RayTracingShaderDesc>,
    pub closest_hit: Option<Vec<RayTracingShaderDesc>>,
    pub miss: Option<Vec<RayTracingShaderDesc>>,
    pub any_hit: Option<Vec<RayTracingShaderDesc>>,
    pub trace_extent: Option<[u32; 3]>,
}

/// The list `v` after appending `item`: an unset list becomes `[item]`.
pub open spec fn appended<T>(v: Option<Vec<T>>, item: T) -> Seq<T> {
    match v {
        Some(l) => l@.push(item),
        None => seq![item],
    }
}

impl RaytracingRenderPassBuilder {
    /// A builder with nothing set.
    pub fn default() -> (b: Self)
        ensures
            b.common is None && b.ray_gen is None && b.closest_hit is None && b.miss is None
                && b.any_hit is None && b.trace_extent is None,
    {
        RaytracingRenderPassBuilder { common: None, ray_gen: None, closest_hit: None, miss: None, any_hit: None, trace_extent: None }
    }

    pub fn common(self, common: PassCommonData) -> (b: Self)
        ensures
            b == (RaytracingRenderPassBuilder { common: Some(common), ..self }),
    {
        RaytracingRenderPassBuilder { common: Some(common), ..self }
    }

    pub fn ray_gen(self, ray_gen: RayTracingShaderDesc) -> (b: Self)
        ensures
            b == (RaytracingRenderPassBuilder { ray_gen: Some(ray_gen), ..self }),
    {
        RaytracingRenderPassBuilder { ray_gen: Some(ray_gen), ..self }
    }

    pub fn trace_extent(self, trace_extent: [u32; 3]) -> (b: Self)
        ensures
            b == (RaytracingRenderPassBuilder { trace_extent: Some(trace_extent), ..self }),
    {
        RaytracingRenderPassBuilder { trace_extent: Some(trace_extent), ..self }
    }

    pub fn add_closest_hit(self, item: RayTracingShaderDesc) -> (b: Self)
        ensures
            (b.closest_hit matches Some(l) && l@ == appended(self.closest_hit, item)),
            b.common == self.common && b.ray_gen == self.ray_gen && b.miss == self.miss
                && b.any_hit == self.any_hit && b.trace_extent == self.trace_extent,
    {
        let RaytracingRenderPassBuilder { common, ray_gen, closest_hit, miss, any_hit, trace_extent } = self;
        let mut l = match closest_hit {
            Some(l) => l,
            None => Vec::new(),
        };
        l.push(item);
        RaytracingRenderPassBuilder { common, ray_gen, closest_hit: Some(l), miss, any_hit, trace_extent }
    }

    pub fn add_miss(self, item: RayTracingShaderDesc) -> (b: Self)
        ensures
            (b.miss matches Some(l) && l@ == appended(self.miss, item)),
            b.common == self.common && b.ray_gen == self.ray_gen && b.closest_hit == self.closest_hit
                && b.any_hit == self.any_hit && b.trace_extent == self.trace_extent,
    {
        let RaytracingRenderPassBuilder { common, ray_gen, closest_hit, miss, any_hit, trace_extent } = self;
        let mut l = match miss {
            Some(l) => l,
            None => Vec::new(),
        };
        l.push(item);
        RaytracingRenderPassBuilder { common, ray_gen, closest_hit, miss: Some(l), any_hit, trace_extent }
    }

    pub fn add_any_hit(self, item: RayTracingShaderDesc) -> (b: Self)
        ensures
            (b.any_hit matches Some(l) && l@ == appended(self.any_hit, item)),
            b.common == self.common && b.ray_gen == self.ray_gen && b.closest_hit == self.closest_hit
                && b.miss == self.miss && b.trace_extent == self.trace_extent,
    {
        let RaytracingRenderPassBuilder { common, ray_gen, closest_hit, miss, any_hit, trace_extent } = self;
        let mut l = match any_hit {
            Some(l) => l,
            None => Vec::new(),
        };
        l.push(item);
        RaytracingRenderPassBuilder { common, ray_gen, closest_hit, miss, any_hit: Some(l), trace_extent }
    }

    /// The pass, or the first field (in declaration order) left unset;
    /// `any_hit` defaults to no shader.
    pub fn build(self) -> (r: Result<RaytracingRenderPass, BuilderError>)
        ensures
            self.common is None ==> (r matches Err(e) && e.spec_field() == "common"@),
            self.common is Some && self.ray_gen is None ==> (r matches Err(e) && e.spec_field() == "ray_gen"@),
            self.common is Some && self.ray_gen is Some && self.closest_hit is None ==> (r matches Err(e)
                && e.spec_field() == "closest_hit"@),
            self.common is Some && self.ray_gen is Some && self.closest_hit is Some && self.miss is None ==>
                (r matches Err(e) && e.spec_field() == "miss"@),
            self.common is Some && self.ray_gen is Some && self.closest_hit is Some && self.miss is Some
                && self.trace_extent is None ==> (r matches Err(e) && e.spec_field() == "trace_extent"@),
            r matches Ok(p) ==> {
                &&& Some(p.common) == self.common
                &&& Some(p.ray_gen) == self.ray_gen
                &&& Some(p.closest_hit) == self.closest_hit
                &&& Some(p.miss) == self.miss
                &&& Some(p.trace_extent) == self.trace_extent
                &&& (match self.any_hit {
                    Some(l) => p.any_hit == l,
                    None => p.any_hit@.len() == 0,
                })
            },
            (self.common is Some && self.ray_gen is Some && self.closest_hit is Some && self.miss is Some
                && self.trace_extent is Some) ==> r is Ok,
    {
        proof {
            reveal_strlit("common");
            reveal_strlit("ray_gen");
            reveal_strlit("closest_hit");
            reveal_strlit("miss");
            reveal_strlit("trace_extent");
        }
        let RaytracingRenderPassBuilder { common, ray_gen, closest_hit, miss, any_hit, trace_extent } = self;
        let common = match common {
            Some(c) => c,
            None => return Err(BuilderError::UninitializedField("common".to_string())),
        };
        let ray_gen = match ray_gen {
            Some(c) => c,
            None => return Err(BuilderError::UninitializedField("ray_gen".to_string())),
        };
        let closest_hit = match closest_hit {
            Some(c) => c,
            None => return Err(BuilderError::UninitializedField("closest_hit".to_string())),
        };
        let miss = match miss {
            Some(c) => c,
            None => return Err(BuilderError::UninitializedField("miss".to_string())),
        };
        let any_hit = match any_hit {
            Some(c) => c,
            None => Vec::new(),
        };
        let trace_extent = match trace_extent {
            Some(c) => c,
            None => return Err(BuilderError::UninitializedField("trace_extent".to_string())),
        };
        Ok(RaytracingRenderPass { common, ray_gen, closest_hit, miss, any_hit, trace_extent })
    }
}

/// What a ray-tracing pass needs to be dispatched: the SPIR-V of its ray-gen
/// stage and of the first miss, closest-hit and any-hit stages, and the
/// extent to trace.
#[derive(Debug)]
pub struct RtDispatch {
    pub ray_gen: Vec<u8>,
    pub miss: Vec<u8>,
    pub closest_hit: Vec<u8>,
    pub any_hit: Vec<u8>,
    pub trace_extent: [u32; 3],
}

/// The first shader of a stage list, if the list is set and not empty.
pub open spec fn first_shader(l: Option<Vec<RayTracingShaderDesc>>) -> Option<ShaderSource> {
    match l {
        Some(v) => if v@.len() > 0 { Some(v@[0].shader) } else { None },
        None => None,
    }
}

/// The SPIR-V bytes of a shader source, if it is pre-compiled SPIR-V.
pub open spec fn spirv_bytes(s: ShaderSource) -> Option<Seq<u8>> {
    match s {
        ShaderSource::Spirv(b) => Some(b@),
        ShaderSource::Glsl(_) => None,
    }
}

/// A stage is set and given as SPIR-V.
pub open spec fn stage_spirv(s: Option<ShaderSource>) -> Option<Seq<u8>> {
    match s {
        Some(src) => spirv_bytes(src),
        None => None,
    }
}

/// What `Debug` shows of a string: the string in quotes, with its special
/// characters escaped.
pub uninterp spec fn string_debug_text(s: Seq<char>) -> Seq<char>;

/// The description of the error refusing a GLSL source at `path`.
pub open spec fn glsl_rejection(path: Seq<char>) -> Seq<char> {
    "generate_render only accepts ShaderSource::Spirv; got Glsl("@ + string_debug_text(path) + ")"@
}

/// `Debug` of a string (through `format!`): the string in quotes, with its
/// special characters escaped.
#[verifier::external_body]
fn debug_text(s: &String) -> (r: String)
    ensures
        r@ == string_debug_text(s@),
{
    format!("{s:?}")
}

/// The description of the error refusing a GLSL source at `path`.
fn glsl_rejection_text(path: &String) -> (r: String)
    ensures
        r@ == glsl_rejection(path@),
{
    let mut d = "generate_render only accepts ShaderSource::Spirv; got Glsl(".to_string();
    let shown = debug_text(path);
    d.append(shown.as_str());
    d.append(")");
    d
}

/// The path of a GLSL source.
pub open spec fn glsl_path(s: ShaderSource) -> Option<Seq<char>> {
    match s {
        ShaderSource::Glsl(p) => Some(p@),
        ShaderSource::Spirv(_) => None,
    }
}

/// The SPIR-V bytes of `s`, or the error refusing a GLSL source.
fn extract_spirv(s: &ShaderSource) -> (r: Result<Vec<u8>, SrError>)
    ensures
        match spirv_bytes(*s) {
            Some(b) => r matches Ok(v) && v@ == b,
            None => r matches Err(e) && e.spec_source() == None::<ErrorSource>
                && e.spec_description() == glsl_rejection(glsl_path(*s)->0),
        },
{
    match s {
        ShaderSource::Spirv(bytes) => {
            let v = bytes.clone();
            proof {
                assert(v@ =~= bytes@);
            }
            Ok(v)
        },
        ShaderSource::Glsl(path) => Err(SrError::new_custom(glsl_rejection_text(path))),
    }
}

/// Number of shaders in a stage list (none when unset).
pub open spec fn stage_count(l: Option<Vec<RayTracingShaderDesc>>) -> nat {
    match l {
        Some(v) => v@.len(),
        None => 0,
    }
}

/// The only shader of a stage list: `Ok` when it holds exactly one, else
/// `Err` with the number it holds.
fn only_of(l: &Option<Vec<RayTracingShaderDesc>>) -> (r: Result<&ShaderSource, usize>)
    ensures
        match r {
            Ok(s) => stage_count(*l) == 1 && first_shader(*l) == Some(*s),
            Err(n) => stage_count(*l) != 1 && n == stage_count(*l),
        },
{
    match l {
        Some(v) => if v.len() == 1 { Ok(&v[0].shader) } else { Err(v.len()) },
        None => Err(0),
    }
}

impl RaytracingRenderPassBuilder {
    /// The number of shaders of each stage that a dispatch needs is right:
    /// the ray-gen stage is set and there is exactly one miss, one
    /// closest-hit and one any-hit shader.
    pub open spec fn stages_set(&self) -> bool {
        &&& self.ray_gen is Some
        &&& stage_count(self.miss) == 1
        &&& stage_count(self.closest_hit) == 1
        &&& stage_count(self.any_hit) == 1
    }

    /// The error of the first stage check that fails, in the order ray-gen,
    /// miss, closest-hit, any-hit: a missing stage, or a stage list that does
    /// not hold exactly one shader.
    pub open spec fn stage_error(&self) -> Option<Seq<char>> {
        if self.ray_gen is None {
            Some("generate_render: ray_gen not set"@)
        } else if stage_count(self.miss) == 0 {
            Some("generate_render: at least one miss shader required"@)
        } else if stage_count(self.miss) > 1 {
            Some("generate_render: exactly one miss shader required"@)
        } else if stage_count(self.closest_hit) == 0 {
            Some("generate_render: at least one closest_hit shader required"@)
        } else if stage_count(self.closest_hit) > 1 {
            Some("generate_render: exactly one closest_hit shader required"@)
        } else if stage_count(self.any_hit) == 0 {
            Some("generate_render: at least one any_hit shader required"@)
        } else if stage_count(self.any_hit) > 1 {
            Some("generate_render: exactly one any_hit shader required"@)
        } else {
            None
        }
    }

    /// The path of the first stage, in dispatch order (ray-gen, miss,
    /// closest-hit, any-hit), given as GLSL rather than SPIR-V.
    pub open spec fn first_glsl_path(&self) -> Option<Seq<char>> {
        if glsl_path(self.ray_gen->0.shader) is Some {
            glsl_path(self.ray_gen->0.shader)
        } else if glsl_path(first_shader(self.miss)->0) is Some {
            glsl_path(first_shader(self.miss)->0)
        } else if glsl_path(first_shader(self.closest_hit)->0) is Some {
            glsl_path(first_shader(self.closest_hit)->0)
        } else {
            glsl_path(first_shader(self.any_hit)->0)
        }
    }

    /// Check that the pass can be dispatched and collect what the dispatch
    /// needs: the ray-gen stage, exactly one miss, one closest-hit and one
    /// any-hit shader, the trace extent, every stage as SPIR-V, and the common
    /// data. The first check that fails gives the error.
    pub fn generate_render(&self) -> (r: Result<RtDispatch, SrError>)
        ensures
            (r is Ok) == (self.stages_set() && self.first_glsl_path() is None && self.trace_extent is Some
                && self.common is Some),
            r matches Ok(d) ==> {
                &&& Some(d.ray_gen@) == stage_spirv(Some(self.ray_gen->0.shader))
                &&& Some(d.miss@) == stage_spirv(first_shader(self.miss))
                &&& Some(d.closest_hit@) == stage_spirv(first_shader(self.closest_hit))
                &&& Some(d.any_hit@) == stage_spirv(first_shader(self.any_hit))
                &&& Some(d.trace_extent) == self.trace_extent
            },
            self.stage_error() matches Some(m) ==> (r matches Err(e) && e.spec_description() == m),
            self.stages_set() && self.trace_extent is None ==> (r matches Err(e)
                && e.spec_description() == "generate_render: trace_extent not set"@),
            self.stages_set() && self.trace_extent is Some && self.first_glsl_path() is Some ==> (r matches Err(e)
                && e.spec_description() == glsl_rejection(self.first_glsl_path()->0)),
            self.stages_set() && self.trace_extent is Some && self.first_glsl_path() is None && self.common is None ==> (
                r matches Err(e) && e.spec_description() == "generate_render: common not set"@),
    {
        let ray_gen = match &self.ray_gen {
            Some(g) => g,
            None => return Err(SrError::new_custom("generate_render: ray_gen not set".to_string())),
        };
        let miss = match only_of(&self.miss) {
            Ok(s) => s,
            Err(0) => return Err(SrError::new_custom("generate_render: at least one miss shader required".to_string())),
            Err(_) => return Err(SrError::new_custom("generate_render: exactly one miss shader required".to_string())),
        };
        let closest_hit = match only_of(&self.closest_hit) {
            Ok(s) => s,
            Err(0) => return Err(SrError::new_custom("generate_render: at least one closest_hit shader required".to_string())),
            Err(_) => return Err(SrError::new_custom("generate_render: exactly one closest_hit shader required".to_string())),
        };
        let any_hit = match only_of(&self.any_hit) {
            Ok(s) => s,
            Err(0) => return Err(SrError::new_custom("generate_render: at least one any_hit shader required".to_string())),
            Err(_) => return Err(SrError::new_custom("generate_render: exactly one any_hit shader required".to_string())),
        };
        let trace_extent = match self.trace_extent {
            Some(t) => t,
            None => return Err(SrError::new_custom("generate_render: trace_extent not set".to_string())),
        };
        let ray_gen_spirv = match extract_spirv(&ray_gen.shader) {
            Ok(v) => v,
            Err(e) => return Err(e),
        };
        let miss_spirv = match extract_spirv(miss) {
            Ok(v) => v,
            Err(e) => return Err(e),
        };
        let closest_hit_spirv = match extract_spirv(closest_hit) {
            Ok(v) => v,
            Err(e) => return Err(e),
        };
        let any_hit_spirv = match extract_spirv(any_hit) {
            Ok(v) => v,
            Err(e) => return Err(e),
        };
        if self.common.is_none() {
            return Err(SrError::new_custom("generate_render: common not set".to_string()));
        }
        Ok(RtDispatch {
            ray_gen: ray_gen_spirv,
            miss: miss_spirv,
            closest_hit: closest_hit_spirv,
            any_hit: any_hit_spirv,
            trace_extent,
        })
    }
}

/// Builds a `ComputeRenderPass`; every field must be set (`add_shader`
/// appends to the shader list, setting it).
pub struct ComputeRenderPassBuilder {
    pub common: Option<PassCommonData>,
    pub shaders: Option<Vec<ShaderSource>>,
    pub entry_point: Option<String>,
}

impl ComputeRenderPassBuilder {
    pub fn default() -> (b: Self)
        ensures
            b.common is None && b.shaders is None && b.entry_point is None,
    {
        ComputeRenderPassBuilder { common: None, shaders: None, entry_point: None }
    }

    pub fn common(self, common: PassCommonData) -> (b: Self)
        ensures
            b == (ComputeRenderPassBuilder { common: Some(common), ..self }),
    {
        ComputeRenderPassBuilder { common: Some(common), ..self }
    }

    pub fn entry_point(self, entry_point: String) -> (b: Self)
        ensures
            b == (ComputeRenderPassBuilder { entry_point: Some(entry_point), ..self }),
    {
        ComputeRenderPassBuilder { entry_point: Some(entry_point), ..self }
    }

    pub fn add_shader(self, shader: ShaderSource) -> (b: Self)
        ensures
            (b.shaders matches Some(l) && l@ == match self.shaders {
                Some(v) => v@.push(shader),
                None => seq![shader],
            }),
            b.common == self.common && b.entry_point == self.entry_point,
    {
        let ComputeRenderPassBuilder { common, shaders, entry_point } = self;
        let mut l = match shaders {
            Some(l) => l,
            None => Vec::new(),
        };
        l.push(shader);
        ComputeRenderPassBuilder { common, shaders: Some(l), entry_point }
    }

    /// The pass, or the first field (in declaration order) left unset.
    pub fn build(self) -> (r: Result<ComputeRenderPass, BuilderError>)
        ensures
            self.common is None ==> (r matches Err(e) && e.spec_field() == "common"@),
            self.common is Some && self.shaders is None ==> (r matches Err(e) && e.spec_field() == "shaders"@),
            self.common is Some && self.shaders is Some && self.entry_point is None ==> (r matches Err(e)
                && e.spec_field() == "entry_point"@),
            r matches Ok(p) ==> Some(p.common) == self.common && Some(p.shaders) == self.shaders
                && Some(p.entry_point) == self.entry_point,
            (self.common is Some && self.shaders is Some && self.entry_point is Some) ==> r is Ok,
    {
        proof {
            reveal_strlit("common");
            reveal_strlit("shaders");
            reveal_strlit("entry_point");
        }
        let ComputeRenderPassBuilder { common, shaders, entry_point } = self;
        let common = match common {
            Some(c) => c,
            None => return Err(BuilderError::UninitializedField("common".to_string())),
        };
        let shaders = match shaders {
            Some(c) => c,
            None => return Err(BuilderError::UninitializedField("shaders".to_string())),
        };
        let entry_point = match entry_point {
            Some(c) => c,
            None => return Err(BuilderError::UninitializedField("entry_point".to_string())),
        };
        Ok(ComputeRenderPass { common, shaders, entry_point })
    }
}

} // verus!
