//! Shader descriptions of the pass-factory interface: which pipeline stage a
//! shader is for, and where its code comes from.
use vstd::prelude::*;

verus! {

/// Descriptor operations a pass factory applies; it holds none yet.
pub struct DescriptorSetOps {}

#[derive(Clone, Copy, Debug, PartialEq, Eq, Hash, Structural)]
pub enum RayTracingPipelineStage {
    RayGen,
    RayMiss,
    RayClosestHit,
}

#[derive(Clone, Copy, Debug, PartialEq, Eq, Hash, Structural)]
pub enum RasterPipelineStage {
    Vertex,
    Pixel,
}

/// Marker for the shader descriptions a factory consumes.
pub trait ShaderDesc {}

/// Where a factory's shader comes from: a GLSL file.
#[derive(Clone, Debug)]
pub enum ShaderSource {
    Glsl(String),
}

/// A ray-tracing shader and the stage it is for.
pub struct RayTracingShaderDesc {
    pub shader: ShaderSource,
    pub pipeline_stage: RasterPipelineStage,
}

/// A raster shader and the stage it is for.
pub struct RasterShaderDesc {
    pub shader: ShaderSource,
    pub pipeline_stage: RasterPipelineStage,
}

/// A compute shader.
pub struct ComputeShaderDesc {
    pub shader: ShaderSource,
}

impl ShaderDesc for RayTracingShaderDesc {}
impl ShaderDesc for RasterShaderDesc {}
impl ShaderDesc for ComputeShaderDesc {}

} // verus!
