//! Graph resources: how they are described, created or imported, and the
//! handles and references passes use to name them.
use vstd::prelude::*;
use crate::render_graph::access::{AccessType, PassResourceAccessType};

verus! {

/// Where a resource's memory lives.
#[derive(Clone, Copy, Debug, PartialEq, Eq, Structural)]
pub enum MemoryLocation {
    Unknown,
    GpuOnly,
    CpuToGpu,
    GpuToCpu,
}

/// Size of an image in texels.
#[derive(Clone, Copy, Debug, PartialEq, Eq, Structural)]
pub struct Extent3D {
    pub width: u32,
    pub height: u32,
    pub depth: u32,
}

/// An image the graph creates. `format`, `tiling` and `usage` are the raw
/// Vulkan values.
#[derive(Debug)]
pub struct ImageDesc {
    pub extent: Extent3D,
    pub format: i32,
    pub tiling: i32,
    pub location: MemoryLocation,
    pub usage: u32,
    pub name: String,
}

/// A buffer the graph creates. `usage` is the raw Vulkan flag set.
#[derive(Debug)]
pub struct BufferDesc {
    pub byte_size: u64,
    pub alignment: u64,
    pub memory_location: MemoryLocation,
    pub usage: u32,
    pub name: String,
}

/// A sampler the graph creates, by raw Vulkan filter / address / mipmap modes.
#[derive(Clone, Copy, Debug, PartialEq, Eq, Structural)]
pub struct SamplerDesc {
    pub min_filter: i32,
    pub mag_filter: i32,
    pub address_mode_u: i32,
    pub address_mode_v: i32,
    pub address_mode_w: i32,
    pub mipmap_mode: i32,
}

/// A ray-tracing acceleration structure the graph creates.
#[derive(Clone, Copy, Debug, PartialEq, Eq, Structural)]
pub struct ASDesc {
    pub byte_size: u64,
}

/// Description of a resource the graph creates itself.
#[derive(Debug)]
pub enum GraphResourceDesc {
    Image(ImageDesc),
    Buffer(BufferDesc),
    Sampler(SamplerDesc),
    RaytracingAS(ASDesc),
}

/// A resource owned outside the graph and imported into it, with the access it
/// arrives in. At most one swapchain image may be imported per graph.
#[derive(Clone, Copy, Debug, PartialEq, Eq, Structural)]
pub enum GraphResourceImportInfo {
    Image { access_type: AccessType },
    Buffer { access_type: AccessType },
    Sampler,
    RayTracingAcceleration { access_type: AccessType },
    /// The frame's swapchain image, by its extent and raw Vulkan format.
    SwapchainImage { extent: Extent3D, format: i32 },
}

/// How a graph resource came to be: created by the graph, or imported.
#[derive(Debug)]
pub enum GraphResourceInfo {
    Created(GraphResourceDesc),
    Imported(GraphResourceImportInfo),
}

/// The kind of resource a handle names.
#[derive(Clone, Copy, Debug, PartialEq, Eq, Structural)]
pub enum ResourceKind {
    Image,
    Buffer,
    Sampler,
    RaytracingAS,
}

impl ImageDesc {
    /// A copy of this description.
    pub fn duplicate(&self) -> (r: Self)
        ensures
            r == *self,
    {
        ImageDesc {
            extent: self.extent,
            format: self.format,
            tiling: self.tiling,
            location: self.location,
            usage: self.usage,
            name: self.name.clone(),
        }
    }
}

impl BufferDesc {
    /// A copy of this description.
    pub fn duplicate(&self) -> (r: Self)
        ensures
            r == *self,
    {
        BufferDesc {
            byte_size: self.byte_size,
            alignment: self.alignment,
            memory_location: self.memory_location,
            usage: self.usage,
            name: self.name.clone(),
        }
    }
}

impl GraphResourceDesc {
    /// A copy of this description.
    pub fn duplicate(&self) -> (r: Self)
        ensures
            r == *self,
    {
        match self {
            GraphResourceDesc::Image(d) => GraphResourceDesc::Image(d.duplicate()),
            GraphResourceDesc::Buffer(d) => GraphResourceDesc::Buffer(d.duplicate()),
            GraphResourceDesc::Sampler(d) => GraphResourceDesc::Sampler(*d),
            GraphResourceDesc::RaytracingAS(d) => GraphResourceDesc::RaytracingAS(*d),
        }
    }

    pub open spec fn spec_kind(&self) -> ResourceKind {
        match self {
            GraphResourceDesc::Image(_) => ResourceKind::Image,
            GraphResourceDesc::Buffer(_) => ResourceKind::Buffer,
            GraphResourceDesc::Sampler(_) => ResourceKind::Sampler,
            GraphResourceDesc::RaytracingAS(_) => ResourceKind::RaytracingAS,
        }
    }

    pub fn kind(&self) -> (k: ResourceKind)
        ensures
            k == self.spec_kind(),
    {
        match self {
            GraphResourceDesc::Image(_) => ResourceKind::Image,
            GraphResourceDesc::Buffer(_) => ResourceKind::Buffer,
            GraphResourceDesc::Sampler(_) => ResourceKind::Sampler,
            GraphResourceDesc::RaytracingAS(_) => ResourceKind::RaytracingAS,
        }
    }
}

impl GraphResourceImportInfo {
    pub open spec fn spec_kind(&self) -> ResourceKind {
        match self {
            GraphResourceImportInfo::Image { .. } => ResourceKind::Image,
            GraphResourceImportInfo::Buffer { .. } => ResourceKind::Buffer,
            GraphResourceImportInfo::Sampler => ResourceKind::Sampler,
            GraphResourceImportInfo::RayTracingAcceleration { .. } => ResourceKind::RaytracingAS,
            GraphResourceImportInfo::SwapchainImage { .. } => ResourceKind::Image,
        }
    }

    pub fn kind(&self) -> (k: ResourceKind)
        ensures
            k == self.spec_kind(),
    {
        match self {
            GraphResourceImportInfo::Image { .. } => ResourceKind::Image,
            GraphResourceImportInfo::Buffer { .. } => ResourceKind::Buffer,
            GraphResourceImportInfo::Sampler => ResourceKind::Sampler,
            GraphResourceImportInfo::RayTracingAcceleration { .. } => ResourceKind::RaytracingAS,
            GraphResourceImportInfo::SwapchainImage { .. } => ResourceKind::Image,
        }
    }
}

impl GraphResourceInfo {
    /// Created by the graph (a transient resource), as opposed to imported.
    pub open spec fn spec_is_created(&self) -> bool {
        self is Created
    }

    /// A created image: its first use needs a transition out of the undefined layout.
    pub open spec fn spec_is_created_image(&self) -> bool {
        self matches GraphResourceInfo::Created(GraphResourceDesc::Image(_))
    }

    pub fn is_created(&self) -> (r: bool)
        ensures
            r == self.spec_is_created(),
    {
        match self {
            GraphResourceInfo::Created(_) => true,
            GraphResourceInfo::Imported(_) => false,
        }
    }

    /// The imported swapchain image.
    pub fn is_swapchain(&self) -> (r: bool)
        ensures
            r == (self matches GraphResourceInfo::Imported(GraphResourceImportInfo::SwapchainImage { .. })),
    {
        match self {
            GraphResourceInfo::Imported(GraphResourceImportInfo::SwapchainImage { .. }) => true,
            _ => false,
        }
    }

    pub fn is_created_image(&self) -> (r: bool)
        ensures
            r == self.spec_is_created_image(),
    {
        match self {
            GraphResourceInfo::Created(GraphResourceDesc::Image(_)) => true,
            _ => false,
        }
    }
}

/// Names one resource of a render graph.
#[derive(Clone, Copy, Debug, PartialEq, Eq, Structural)]
pub struct Handle {
    pub id: u32,
    pub kind: ResourceKind,
}

/// A pass's declared use of one graph resource.
#[derive(Clone, Copy, Debug)]
pub struct ResourceRef {
    pub id: u32,
    pub access: PassResourceAccessType,
}

/// Something that can be imported into a render graph: it knows the import
/// record that describes it to the graph.
pub trait RgImportable {
    fn import(&self) -> GraphResourceImportInfo;
}

} // verus!
