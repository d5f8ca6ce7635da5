//! The reduced graph error set kept for callers of the older pass-builder API.
use vstd::prelude::*;
use crate::error::ErrorSource;

verus! {

/// Errors of the older pass-builder API: only access-flag misuse.
#[derive(Clone, Copy, Debug, PartialEq, Eq, Structural)]
pub enum GraphError {
    IncorrectRenderAccessFlags,
}

impl GraphError {
    /// The error source this error is reported as: the same misuse in the
    /// current graph error set.
    pub fn into_source(self) -> (r: ErrorSource)
        ensures
            r == ErrorSource::RenderGraph(crate::render_graph::error::GraphError::IncorrectRenderAccessFlags),
    {
        ErrorSource::RenderGraph(crate::render_graph::error::GraphError::IncorrectRenderAccessFlags)
    }
}

} // verus!
