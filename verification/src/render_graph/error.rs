//! Errors the render graph reports.
use vstd::prelude::*;

verus! {

/// What went wrong while building a render graph.
#[derive(Clone, Copy, Debug, PartialEq, Eq, Structural)]
pub enum GraphError {
    IncorrectRenderAccessFlags,
    InvalidResourceRef,
    SwapchainAlreadyImported,
    MissingCoreForCompile,
}

impl GraphError {
    /// The text a graph error shows: `Graph error `, its name and a space.
    pub open spec fn spec_text(&self) -> Seq<char> {
        match self {
            GraphError::IncorrectRenderAccessFlags => "Graph error IncorrectRenderAccessFlags "@,
            GraphError::InvalidResourceRef => "Graph error InvalidResourceRef "@,
            GraphError::SwapchainAlreadyImported => "Graph error SwapchainAlreadyImported "@,
            GraphError::MissingCoreForCompile => "Graph error MissingCoreForCompile "@,
        }
    }

    pub fn to_text(&self) -> (r: String)
        ensures
            r@ == self.spec_text(),
    {
        match self {
            GraphError::IncorrectRenderAccessFlags => "Graph error IncorrectRenderAccessFlags ".to_string(),
            GraphError::InvalidResourceRef => "Graph error InvalidResourceRef ".to_string(),
            GraphError::SwapchainAlreadyImported => "Graph error SwapchainAlreadyImported ".to_string(),
            GraphError::MissingCoreForCompile => "Graph error MissingCoreForCompile ".to_string(),
        }
    }
}

} // verus!
