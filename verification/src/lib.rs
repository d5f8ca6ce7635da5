//! Verified core of the sunray hardware ray-tracing renderer: the render-graph
//! scheduler (hazard tracking, barriers, pass ordering), the pipeline cache,
//! device/queue selection and the frame bookkeeping of the renderer.
use vstd::prelude::*;

pub mod error;
pub mod render_graph;
pub mod utils;
pub mod frame;
pub mod frame_graph;
pub mod device;
pub mod scene;
pub mod renderer;
pub mod profiling;
pub mod integration;
pub mod demo;

verus! {

/// Number of frames the CPU and GPU work on concurrently.
pub const MAX_FRAMES_IN_FLIGHT: usize = 2;

} // verus!
