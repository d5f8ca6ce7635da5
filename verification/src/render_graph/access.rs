//! Resource access kinds used by render-graph passes.
//!
//! `AccessType` names one way a pass touches a resource (the same vocabulary as
//! the `vk-sync` family of crates); the graph only needs to know whether an
//! access writes, and to carry the access into the barriers it emits.
use vstd::prelude::*;

verus! {

/// How a pass touches a resource.
#[derive(Clone, Copy, Debug, PartialEq, Eq, Structural)]
pub enum AccessType {
    Nothing,
    CommandBufferReadNVX,
    IndirectBuffer,
    IndexBuffer,
    VertexBuffer,
    VertexShaderReadUniformBuffer,
    VertexShaderReadSampledImageOrUniformTexelBuffer,
    VertexShaderReadOther,
    MeshShaderReadUniformBuffer,
    MeshShaderReadSampledImageOrUniformTexelBuffer,
    MeshShaderReadOther,
    TaskShaderReadUniformBuffer,
    TaskShaderReadSampledImageOrUniformTexelBuffer,
    TaskShaderReadOther,
    TessellationControlShaderReadUniformBuffer,
    TessellationControlShaderReadSampledImageOrUniformTexelBuffer,
    TessellationControlShaderReadOther,
    TessellationEvaluationShaderReadUniformBuffer,
    TessellationEvaluationShaderReadSampledImageOrUniformTexelBuffer,
    TessellationEvaluationShaderReadOther,
    GeometryShaderReadUniformBuffer,
    GeometryShaderReadSampledImageOrUniformTexelBuffer,
    GeometryShaderReadOther,
    FragmentShaderReadUniformBuffer,
    FragmentShaderReadSampledImageOrUniformTexelBuffer,
    FragmentShaderReadColorInputAttachment,
    FragmentShaderReadDepthStencilInputAttachment,
    FragmentShaderReadOther,
    ColorAttachmentRead,
    DepthStencilAttachmentRead,
    DepthStencilAttachmentReadWrite,
    ComputeShaderReadUniformBuffer,
    ComputeShaderReadSampledImageOrUniformTexelBuffer,
    ComputeShaderReadOther,
    ComputeShaderReadWrite,
    AnyShaderReadUniformBuffer,
    AnyShaderReadUniformBufferOrVertexBuffer,
    AnyShaderReadSampledImageOrUniformTexelBuffer,
    AnyShaderReadOther,
    TransferRead,
    HostRead,
    Present,
    CommandBufferWriteNVX,
    VertexShaderWrite,
    MeshShaderWrite,
    TaskShaderWrite,
    TessellationControlShaderWrite,
    TessellationEvaluationShaderWrite,
    GeometryShaderWrite,
    FragmentShaderWrite,
    ColorAttachmentWrite,
    DepthStencilAttachmentWrite,
    DepthAttachmentWriteStencilReadOnly,
    StencilAttachmentWriteDepthReadOnly,
    ComputeShaderWrite,
    AnyShaderWrite,
    TransferWrite,
    HostWrite,
    ColorAttachmentReadWrite,
    General,
    RayTracingShaderReadSampledImageOrUniformTexelBuffer,
    RayTracingShaderReadColorInputAttachment,
    RayTracingShaderReadDepthStencilInputAttachment,
    RayTracingShaderReadAccelerationStructure,
    RayTracingShaderReadOther,
    AccelerationStructureBuildWrite,
    AccelerationStructureBuildRead,
    AccelerationStructureBufferWrite,
}

/// The accesses that modify the resource they touch.
pub open spec fn spec_is_write_access(a: AccessType) -> bool {
    ||| a == AccessType::CommandBufferWriteNVX
    ||| a == AccessType::VertexShaderWrite
    ||| a == AccessType::MeshShaderWrite
    ||| a == AccessType::TaskShaderWrite
    ||| a == AccessType::TessellationControlShaderWrite
    ||| a == AccessType::TessellationEvaluationShaderWrite
    ||| a == AccessType::GeometryShaderWrite
    ||| a == AccessType::FragmentShaderWrite
    ||| a == AccessType::ColorAttachmentWrite
    ||| a == AccessType::DepthStencilAttachmentWrite
    ||| a == AccessType::DepthAttachmentWriteStencilReadOnly
    ||| a == AccessType::DepthStencilAttachmentReadWrite
    ||| a == AccessType::StencilAttachmentWriteDepthReadOnly
    ||| a == AccessType::ComputeShaderWrite
    ||| a == AccessType::ComputeShaderReadWrite
    ||| a == AccessType::AnyShaderWrite
    ||| a == AccessType::TransferWrite
    ||| a == AccessType::HostWrite
    ||| a == AccessType::ColorAttachmentReadWrite
    ||| a == AccessType::General
}

/// The name of an access, as its variant is written.
pub open spec fn spec_access_name(a: AccessType) -> Seq<char> {
    match a {
        AccessType::Nothing => "Nothing"@,
        AccessType::CommandBufferReadNVX => "CommandBufferReadNVX"@,
        AccessType::IndirectBuffer => "IndirectBuffer"@,
        AccessType::IndexBuffer => "IndexBuffer"@,
        AccessType::VertexBuffer => "VertexBuffer"@,
        AccessType::VertexShaderReadUniformBuffer => "VertexShaderReadUniformBuffer"@,
        AccessType::VertexShaderReadSampledImageOrUniformTexelBuffer => "VertexShaderReadSampledImageOrUniformTexelBuffer"@,
        AccessType::VertexShaderReadOther => "VertexShaderReadOther"@,
        AccessType::MeshShaderReadUniformBuffer => "MeshShaderReadUniformBuffer"@,
        AccessType::MeshShaderReadSampledImageOrUniformTexelBuffer => "MeshShaderReadSampledImageOrUniformTexelBuffer"@,
        AccessType::MeshShaderReadOther => "MeshShaderReadOther"@,
        AccessType::TaskShaderReadUniformBuffer => "TaskShaderReadUniformBuffer"@,
        AccessType::TaskShaderReadSampledImageOrUniformTexelBuffer => "TaskShaderReadSampledImageOrUniformTexelBuffer"@,
        AccessType::TaskShaderReadOther => "TaskShaderReadOther"@,
        AccessType::TessellationControlShaderReadUniformBuffer => "TessellationControlShaderReadUniformBuffer"@,
        AccessType::TessellationControlShaderReadSampledImageOrUniformTexelBuffer => "TessellationControlShaderReadSampledImageOrUniformTexelBuffer"@,
        AccessType::TessellationControlShaderReadOther => "TessellationControlShaderReadOther"@,
        AccessType::TessellationEvaluationShaderReadUniformBuffer => "TessellationEvaluationShaderReadUniformBuffer"@,
        AccessType::TessellationEvaluationShaderReadSampledImageOrUniformTexelBuffer => "TessellationEvaluationShaderReadSampledImageOrUniformTexelBuffer"@,
        AccessType::TessellationEvaluationShaderReadOther => "TessellationEvaluationShaderReadOther"@,
        AccessType::GeometryShaderReadUniformBuffer => "GeometryShaderReadUniformBuffer"@,
        AccessType::GeometryShaderReadSampledImageOrUniformTexelBuffer => "GeometryShaderReadSampledImageOrUniformTexelBuffer"@,
        AccessType::GeometryShaderReadOther => "GeometryShaderReadOther"@,
        AccessType::FragmentShaderReadUniformBuffer => "FragmentShaderReadUniformBuffer"@,
        AccessType::FragmentShaderReadSampledImageOrUniformTexelBuffer => "FragmentShaderReadSampledImageOrUniformTexelBuffer"@,
        AccessType::FragmentShaderReadColorInputAttachment => "FragmentShaderReadColorInputAttachment"@,
        AccessType::FragmentShaderReadDepthStencilInputAttachment => "FragmentShaderReadDepthStencilInputAttachment"@,
        AccessType::FragmentShaderReadOther => "FragmentShaderReadOther"@,
        AccessType::ColorAttachmentRead => "ColorAttachmentRead"@,
        AccessType::DepthStencilAttachmentRead => "DepthStencilAttachmentRead"@,
        AccessType::DepthStencilAttachmentReadWrite => "DepthStencilAttachmentReadWrite"@,
        AccessType::ComputeShaderReadUniformBuffer => "ComputeShaderReadUniformBuffer"@,
        AccessType::ComputeShaderReadSampledImageOrUniformTexelBuffer => "ComputeShaderReadSampledImageOrUniformTexelBuffer"@,
        AccessType::ComputeShaderReadOther => "ComputeShaderReadOther"@,
        AccessType::ComputeShaderReadWrite => "ComputeShaderReadWrite"@,
        AccessType::AnyShaderReadUniformBuffer => "AnyShaderReadUniformBuffer"@,
        AccessType::AnyShaderReadUniformBufferOrVertexBuffer => "AnyShaderReadUniformBufferOrVertexBuffer"@,
        AccessType::AnyShaderReadSampledImageOrUniformTexelBuffer => "AnyShaderReadSampledImageOrUniformTexelBuffer"@,
        AccessType::AnyShaderReadOther => "AnyShaderReadOther"@,
        AccessType::TransferRead => "TransferRead"@,
        AccessType::HostRead => "HostRead"@,
        AccessType::Present => "Present"@,
        AccessType::CommandBufferWriteNVX => "CommandBufferWriteNVX"@,
        AccessType::VertexShaderWrite => "VertexShaderWrite"@,
        AccessType::MeshShaderWrite => "MeshShaderWrite"@,
        AccessType::TaskShaderWrite => "TaskShaderWrite"@,
        AccessType::TessellationControlShaderWrite => "TessellationControlShaderWrite"@,
        AccessType::TessellationEvaluationShaderWrite => "TessellationEvaluationShaderWrite"@,
        AccessType::GeometryShaderWrite => "GeometryShaderWrite"@,
        AccessType::FragmentShaderWrite => "FragmentShaderWrite"@,
        AccessType::ColorAttachmentWrite => "ColorAttachmentWrite"@,
        AccessType::DepthStencilAttachmentWrite => "DepthStencilAttachmentWrite"@,
        AccessType::DepthAttachmentWriteStencilReadOnly => "DepthAttachmentWriteStencilReadOnly"@,
        AccessType::StencilAttachmentWriteDepthReadOnly => "StencilAttachmentWriteDepthReadOnly"@,
        AccessType::ComputeShaderWrite => "ComputeShaderWrite"@,
        AccessType::AnyShaderWrite => "AnyShaderWrite"@,
        AccessType::TransferWrite => "TransferWrite"@,
        AccessType::HostWrite => "HostWrite"@,
        AccessType::ColorAttachmentReadWrite => "ColorAttachmentReadWrite"@,
        AccessType::General => "General"@,
        AccessType::RayTracingShaderReadSampledImageOrUniformTexelBuffer => "RayTracingShaderReadSampledImageOrUniformTexelBuffer"@,
        AccessType::RayTracingShaderReadColorInputAttachment => "RayTracingShaderReadColorInputAttachment"@,
        AccessType::RayTracingShaderReadDepthStencilInputAttachment => "RayTracingShaderReadDepthStencilInputAttachment"@,
        AccessType::RayTracingShaderReadAccelerationStructure => "RayTracingShaderReadAccelerationStructure"@,
        AccessType::RayTracingShaderReadOther => "RayTracingShaderReadOther"@,
        AccessType::AccelerationStructureBuildWrite => "AccelerationStructureBuildWrite"@,
        AccessType::AccelerationStructureBuildRead => "AccelerationStructureBuildRead"@,
        AccessType::AccelerationStructureBufferWrite => "AccelerationStructureBufferWrite"@,
    }
}

/// The accesses that write are those `vk-sync` counts as writes: a pass may
/// declare a write only with one of these twenty accesses, and a read only
/// with any other. Each shader stage's write, the colour and depth/stencil
/// attachment writes (and read-writes), the compute read-write, transfer and
/// host writes and the general access write; every other access, the present
/// access and the acceleration-structure accesses among them, reads.
pub proof fn lemma_write_accesses()
    ensures
        Set::new(|a: AccessType| spec_is_write_access(a)) == set![
        AccessType::CommandBufferWriteNVX,
        AccessType::VertexShaderWrite,
        AccessType::MeshShaderWrite,
        AccessType::TaskShaderWrite,
        AccessType::TessellationControlShaderWrite,
        AccessType::TessellationEvaluationShaderWrite,
        AccessType::GeometryShaderWrite,
        AccessType::FragmentShaderWrite,
        AccessType::ColorAttachmentWrite,
        AccessType::DepthStencilAttachmentWrite,
        AccessType::DepthAttachmentWriteStencilReadOnly,
        AccessType::DepthStencilAttachmentReadWrite,
        AccessType::StencilAttachmentWriteDepthReadOnly,
        AccessType::ComputeShaderWrite,
        AccessType::ComputeShaderReadWrite,
        AccessType::AnyShaderWrite,
        AccessType::TransferWrite,
        AccessType::HostWrite,
        AccessType::ColorAttachmentReadWrite,
        AccessType::General
        ],
{
    assert(Set::new(|a: AccessType| spec_is_write_access(a)) =~= set![
        AccessType::CommandBufferWriteNVX,
        AccessType::VertexShaderWrite,
        AccessType::MeshShaderWrite,
        AccessType::TaskShaderWrite,
        AccessType::TessellationControlShaderWrite,
        AccessType::TessellationEvaluationShaderWrite,
        AccessType::GeometryShaderWrite,
        AccessType::FragmentShaderWrite,
        AccessType::ColorAttachmentWrite,
        AccessType::DepthStencilAttachmentWrite,
        AccessType::DepthAttachmentWriteStencilReadOnly,
        AccessType::DepthStencilAttachmentReadWrite,
        AccessType::StencilAttachmentWriteDepthReadOnly,
        AccessType::ComputeShaderWrite,
        AccessType::ComputeShaderReadWrite,
        AccessType::AnyShaderWrite,
        AccessType::TransferWrite,
        AccessType::HostWrite,
        AccessType::ColorAttachmentReadWrite,
        AccessType::General
    ]);
}

impl AccessType {
    /// The name of this access, as its variant is written (what `Debug`
    /// shows of it).
    pub fn name(&self) -> (r: &'static str)
        ensures
            r@ == spec_access_name(*self),
    {
        match self {
            AccessType::Nothing => "Nothing",
            AccessType::CommandBufferReadNVX => "CommandBufferReadNVX",
            AccessType::IndirectBuffer => "IndirectBuffer",
            AccessType::IndexBuffer => "IndexBuffer",
            AccessType::VertexBuffer => "VertexBuffer",
            AccessType::VertexShaderReadUniformBuffer => "VertexShaderReadUniformBuffer",
            AccessType::VertexShaderReadSampledImageOrUniformTexelBuffer => "VertexShaderReadSampledImageOrUniformTexelBuffer",
            AccessType::VertexShaderReadOther => "VertexShaderReadOther",
            AccessType::MeshShaderReadUniformBuffer => "MeshShaderReadUniformBuffer",
            AccessType::MeshShaderReadSampledImageOrUniformTexelBuffer => "MeshShaderReadSampledImageOrUniformTexelBuffer",
            AccessType::MeshShaderReadOther => "MeshShaderReadOther",
            AccessType::TaskShaderReadUniformBuffer => "TaskShaderReadUniformBuffer",
            AccessType::TaskShaderReadSampledImageOrUniformTexelBuffer => "TaskShaderReadSampledImageOrUniformTexelBuffer",
            AccessType::TaskShaderReadOther => "TaskShaderReadOther",
            AccessType::TessellationControlShaderReadUniformBuffer => "TessellationControlShaderReadUniformBuffer",
            AccessType::TessellationControlShaderReadSampledImageOrUniformTexelBuffer => "TessellationControlShaderReadSampledImageOrUniformTexelBuffer",
            AccessType::TessellationControlShaderReadOther => "TessellationControlShaderReadOther",
            AccessType::TessellationEvaluationShaderReadUniformBuffer => "TessellationEvaluationShaderReadUniformBuffer",
            AccessType::TessellationEvaluationShaderReadSampledImageOrUniformTexelBuffer => "TessellationEvaluationShaderReadSampledImageOrUniformTexelBuffer",
            AccessType::TessellationEvaluationShaderReadOther => "TessellationEvaluationShaderReadOther",
            AccessType::GeometryShaderReadUniformBuffer => "GeometryShaderReadUniformBuffer",
            AccessType::GeometryShaderReadSampledImageOrUniformTexelBuffer => "GeometryShaderReadSampledImageOrUniformTexelBuffer",
            AccessType::GeometryShaderReadOther => "GeometryShaderReadOther",
            AccessType::FragmentShaderReadUniformBuffer => "FragmentShaderReadUniformBuffer",
            AccessType::FragmentShaderReadSampledImageOrUniformTexelBuffer => "FragmentShaderReadSampledImageOrUniformTexelBuffer",
            AccessType::FragmentShaderReadColorInputAttachment => "FragmentShaderReadColorInputAttachment",
            AccessType::FragmentShaderReadDepthStencilInputAttachment => "FragmentShaderReadDepthStencilInputAttachment",
            AccessType::FragmentShaderReadOther => "FragmentShaderReadOther",
            AccessType::ColorAttachmentRead => "ColorAttachmentRead",
            AccessType::DepthStencilAttachmentRead => "DepthStencilAttachmentRead",
            AccessType::DepthStencilAttachmentReadWrite => "DepthStencilAttachmentReadWrite",
            AccessType::ComputeShaderReadUniformBuffer => "ComputeShaderReadUniformBuffer",
            AccessType::ComputeShaderReadSampledImageOrUniformTexelBuffer => "ComputeShaderReadSampledImageOrUniformTexelBuffer",
            AccessType::ComputeShaderReadOther => "ComputeShaderReadOther",
            AccessType::ComputeShaderReadWrite => "ComputeShaderReadWrite",
            AccessType::AnyShaderReadUniformBuffer => "AnyShaderReadUniformBuffer",
            AccessType::AnyShaderReadUniformBufferOrVertexBuffer => "AnyShaderReadUniformBufferOrVertexBuffer",
            AccessType::AnyShaderReadSampledImageOrUniformTexelBuffer => "AnyShaderReadSampledImageOrUniformTexelBuffer",
            AccessType::AnyShaderReadOther => "AnyShaderReadOther",
            AccessType::TransferRead => "TransferRead",
            AccessType::HostRead => "HostRead",
            AccessType::Present => "Present",
            AccessType::CommandBufferWriteNVX => "CommandBufferWriteNVX",
            AccessType::VertexShaderWrite => "VertexShaderWrite",
            AccessType::MeshShaderWrite => "MeshShaderWrite",
            AccessType::TaskShaderWrite => "TaskShaderWrite",
            AccessType::TessellationControlShaderWrite => "TessellationControlShaderWrite",
            AccessType::TessellationEvaluationShaderWrite => "TessellationEvaluationShaderWrite",
            AccessType::GeometryShaderWrite => "GeometryShaderWrite",
            AccessType::FragmentShaderWrite => "FragmentShaderWrite",
            AccessType::ColorAttachmentWrite => "ColorAttachmentWrite",
            AccessType::DepthStencilAttachmentWrite => "DepthStencilAttachmentWrite",
            AccessType::DepthAttachmentWriteStencilReadOnly => "DepthAttachmentWriteStencilReadOnly",
            AccessType::StencilAttachmentWriteDepthReadOnly => "StencilAttachmentWriteDepthReadOnly",
            AccessType::ComputeShaderWrite => "ComputeShaderWrite",
            AccessType::AnyShaderWrite => "AnyShaderWrite",
            AccessType::TransferWrite => "TransferWrite",
            AccessType::HostWrite => "HostWrite",
            AccessType::ColorAttachmentReadWrite => "ColorAttachmentReadWrite",
            AccessType::General => "General",
            AccessType::RayTracingShaderReadSampledImageOrUniformTexelBuffer => "RayTracingShaderReadSampledImageOrUniformTexelBuffer",
            AccessType::RayTracingShaderReadColorInputAttachment => "RayTracingShaderReadColorInputAttachment",
            AccessType::RayTracingShaderReadDepthStencilInputAttachment => "RayTracingShaderReadDepthStencilInputAttachment",
            AccessType::RayTracingShaderReadAccelerationStructure => "RayTracingShaderReadAccelerationStructure",
            AccessType::RayTracingShaderReadOther => "RayTracingShaderReadOther",
            AccessType::AccelerationStructureBuildWrite => "AccelerationStructureBuildWrite",
            AccessType::AccelerationStructureBuildRead => "AccelerationStructureBuildRead",
            AccessType::AccelerationStructureBufferWrite => "AccelerationStructureBufferWrite",
        }
    }

    /// Whether this access writes the resource it touches.
    pub fn is_write_access(&self) -> (r: bool)
        ensures
            r == spec_is_write_access(*self),
    {
        match self {
            AccessType::CommandBufferWriteNVX
            | AccessType::VertexShaderWrite
            | AccessType::MeshShaderWrite
            | AccessType::TaskShaderWrite
            | AccessType::TessellationControlShaderWrite
            | AccessType::TessellationEvaluationShaderWrite
            | AccessType::GeometryShaderWrite
            | AccessType::FragmentShaderWrite
            | AccessType::ColorAttachmentWrite
            | AccessType::DepthStencilAttachmentWrite
            | AccessType::DepthAttachmentWriteStencilReadOnly
            | AccessType::DepthStencilAttachmentReadWrite
            | AccessType::StencilAttachmentWriteDepthReadOnly
            | AccessType::ComputeShaderWrite
            | AccessType::ComputeShaderReadWrite
            | AccessType::AnyShaderWrite
            | AccessType::TransferWrite
            | AccessType::HostWrite
            | AccessType::ColorAttachmentReadWrite
            | AccessType::General => true,
            _ => false,
        }
    }
}

/// When a barrier between two accesses of the same resource is wanted.
#[derive(Clone, Copy, Debug, PartialEq, Eq, Structural)]
pub enum PassResourceAccessSyncType {
    AlwaysSync,
    SkipSyncIfSameAccessType,
    NeverSync,
}

/// One declared access of a pass: the access itself plus its sync policy.
#[derive(Clone, Copy, Debug, PartialEq, Eq, Structural)]
pub struct PassResourceAccessType {
    pub access_type: AccessType,
    pub sync_type: PassResourceAccessSyncType,
}

} // verus!
