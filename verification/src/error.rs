//! The renderer's error type: where an error came from, plus a description.
use vstd::prelude::*;
use crate::render_graph::error::GraphError;

verus! {

/// Where an error came from. Errors of outside libraries (the Vulkan result
/// code, glTF and allocator errors) are carried as their code or message.
#[derive(Debug)]
pub enum ErrorSource {
    Vulkan(i32),
    Gltf(String),
    Allocator(String),
    Custom(String),
    RenderGraph(GraphError),
}

/// An error of the renderer.
#[derive(Debug)]
pub struct SrError {
    source: Option<ErrorSource>,
    description: String,
}

pub type SrResult<T> = Result<T, SrError>;

/// The backtrace of the current call, rendered, when backtraces are enabled
/// (`RUST_BACKTRACE`) and one was captured. Whether one is captured depends on
/// the environment, so nothing is stated of the result.
#[verifier::external_body]
fn capture_backtrace() -> Option<String> {
    let bt = std::backtrace::Backtrace::capture();
    match bt.status() {
        std::backtrace::BacktraceStatus::Captured => Some(bt.to_string()),
        _ => None,
    }
}

/// The text `ash` shows for a Vulkan result code (its `Display`).
pub uninterp spec fn vk_result_description(code: i32) -> Seq<char>;

/// `Display` of `ash::vk::Result::from_raw(code)`.
#[verifier::external_body]
fn vk_result_text(code: i32) -> (r: String)
    ensures
        r@ == vk_result_description(code),
{
    ash::vk::Result::from_raw(code).to_string()
}

/// `prefix` followed by `text`.
pub fn unexpected_error_text(prefix: &str, text: &str) -> (r: String)
    ensures
        r@ == prefix@ + text@,
{
    let mut d = prefix.to_string();
    d.append(text);
    d
}

/// `full` is `description` followed either by a rendered backtrace on a line
/// of its own or by the hint on how to get one.
pub open spec fn with_backtrace_note(description: Seq<char>, full: Seq<char>) -> bool {
    ||| full == description + " (set RUST_BACKTRACE=1 to get a backtrace)"@
    ||| exists|bt: Seq<char>| full == #[trigger] (description + "\n"@ + bt)
}

impl SrError {
    pub closed spec fn spec_source(&self) -> Option<ErrorSource> {
        self.source
    }

    pub closed spec fn spec_description(&self) -> Seq<char> {
        self.description@
    }

    /// An error from `source` described by `description`, followed by the
    /// backtrace of the call when one was captured, or by a hint on how to get
    /// one.
    pub fn new(source: Option<ErrorSource>, description: String) -> (e: Self)
        ensures
            e.spec_source() == source,
            with_backtrace_note(description@, e.spec_description()),
    {
        let ghost d = description@;
        let backtrace = capture_backtrace();
        let ghost b = backtrace;
        let e = Self::new_with_backtrace(source, description, backtrace);
        proof {
            if let Some(bt) = b {
                assert(e.spec_description() == d + "\n"@ + bt@);
            }
        }
        e
    }

    /// An error from `source` described by `description` and `backtrace`:
    /// a captured backtrace goes on a line of its own after the description;
    /// without one, the description says how to get one.
    pub fn new_with_backtrace(source: Option<ErrorSource>, description: String, backtrace: Option<String>) -> (e: Self)
        ensures
            e.spec_source() == source,
            e.spec_description() == match backtrace {
                Some(bt) => description@ + "\n"@ + bt@,
                None => description@ + " (set RUST_BACKTRACE=1 to get a backtrace)"@,
            },
    {
        let mut d = description;
        match backtrace {
            Some(bt) => {
                d.append("\n");
                d.append(bt.as_str());
            },
            None => {
                d.append(" (set RUST_BACKTRACE=1 to get a backtrace)");
            },
        }
        SrError { source, description: d }
    }

    /// An error for a Vulkan result code that was not expected.
    pub fn from_vk_result(code: i32) -> (e: Self)
        ensures
            e.spec_source() == Some(ErrorSource::Vulkan(code)),
            with_backtrace_note("UNEXPECTED VULKAN ERROR: "@ + vk_result_description(code), e.spec_description()),
    {
        let text = vk_result_text(code);
        Self::new(Some(ErrorSource::Vulkan(code)), unexpected_error_text("UNEXPECTED VULKAN ERROR: ", text.as_str()))
    }

    /// An error for a glTF failure with message `message`.
    pub fn from_gltf_message(message: String) -> (e: Self)
        ensures
            e.spec_source() == Some(ErrorSource::Gltf(message)),
            with_backtrace_note("UNEXPECTED GLTF ERROR: "@ + message@, e.spec_description()),
    {
        let d = unexpected_error_text("UNEXPECTED GLTF ERROR: ", message.as_str());
        Self::new(Some(ErrorSource::Gltf(message)), d)
    }

    /// An error for a memory-allocator failure with message `message`.
    pub fn from_allocator_message(message: String) -> (e: Self)
        ensures
            e.spec_source() == Some(ErrorSource::Allocator(message)),
            with_backtrace_note("UNEXPECTED GPU_ALLOCATOR ERROR: "@ + message@, e.spec_description()),
    {
        let d = unexpected_error_text("UNEXPECTED GPU_ALLOCATOR ERROR: ", message.as_str());
        Self::new(Some(ErrorSource::Allocator(message)), d)
    }

    /// An error with no underlying source.
    pub fn new_custom(description: String) -> (e: Self)
        ensures
            e.spec_source() == None::<ErrorSource>,
            e.spec_description() == description@,
    {
        SrError { source: None, description }
    }

    pub fn get_source(&self) -> (r: Option<&ErrorSource>)
        ensures
            r == match self.spec_source() {
                Some(s) => Some(&s),
                None => None::<&ErrorSource>,
            },
    {
        self.source.as_ref()
    }

    /// What the error says when shown: its description.
    pub fn to_text(&self) -> (r: String)
        ensures
            r@ == self.spec_description(),
    {
        self.description.clone()
    }

    pub fn description(&self) -> (r: &str)
        ensures
            r@ == self.spec_description(),
    {
        self.description.as_str()
    }
}

impl ErrorSource {
    /// What the source says when shown: the Vulkan result's text, the carried
    /// message, or the graph error's text.
    pub fn to_text(&self) -> (r: String)
        ensures
            r@ == match self {
                ErrorSource::Vulkan(code) => vk_result_description(*code),
                ErrorSource::Gltf(m) => m@,
                ErrorSource::Allocator(m) => m@,
                ErrorSource::Custom(m) => m@,
                ErrorSource::RenderGraph(g) => g.spec_text(),
            },
    {
        match self {
            ErrorSource::Vulkan(code) => vk_result_text(*code),
            ErrorSource::Gltf(m) => m.clone(),
            ErrorSource::Allocator(m) => m.clone(),
            ErrorSource::Custom(m) => m.clone(),
            ErrorSource::RenderGraph(g) => g.to_text(),
        }
    }
}

} // verus!
