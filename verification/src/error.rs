//! Reasons for which a unit of work is skipped.

use vstd::prelude::*;

verus! {

/// Why one mesh, one pass or one view was left out of a frame.
///
/// None of these aborts a frame: the affected unit is skipped and the rest
/// of the frame goes on.
#[derive(Clone, Copy, Debug, PartialEq, Eq, Structural)]
pub enum VoronoiError {
    /// A phase, a texture pair or a pipeline that a pass expects is absent.
    MissingResource,
    /// Specializing the mesh pipeline for a mesh failed.
    PipelineCompilationFailure,
    /// The surfaces handed out for a view cannot back a ping-pong pair.
    AllocationFailure,
}

impl VoronoiError {
    /// A short description of the error, for logs.
    pub fn message(&self) -> (text: &'static str)
        ensures
            text@ == match *self {
                VoronoiError::MissingResource => "expected render resource is missing"@,
                VoronoiError::PipelineCompilationFailure => "pipeline specialization failed"@,
                VoronoiError::AllocationFailure => "surface allocation failed"@,
            },
    {
        match self {
            VoronoiError::MissingResource => "expected render resource is missing",
            VoronoiError::PipelineCompilationFailure => "pipeline specialization failed",
            VoronoiError::AllocationFailure => "surface allocation failed",
        }
    }
}

} // verus!
