//! Error taxonomy of the pipeline.

use vstd::prelude::*;

verus! {

/// Why one image (or one dataset) cannot be processed further.
///
/// Every variant is fatal for the image or dataset in question; the caller
/// is expected to skip the image (or abort dataset assembly) and go on.
#[derive(Clone, Copy, Debug, PartialEq, Eq, Structural)]
pub enum PipelineError {
    /// A crop or resize would leave a width or height of zero.
    Geometry,
    /// A border scan window produced no candidate offset: the brightness
    /// heuristic does not match this image's layout.
    BorderNotFound,
    /// A feature row's length does not match the rest of its dataset.
    DimensionMismatch,
}

impl PipelineError {
    /// A short human-readable name for the error.
    pub fn describe(&self) -> (r: &'static str)
        ensures
            r@ == self.spec_describe(),
    {
        match self {
            PipelineError::Geometry => "crop or resize would leave an empty image",
            PipelineError::BorderNotFound => "no border offset candidate in the scan window",
            PipelineError::DimensionMismatch => "feature row length differs from the dataset's",
        }
    }

    /// What `describe` returns.
    pub open spec fn spec_describe(self) -> Seq<char> {
        match self {
            PipelineError::Geometry => "crop or resize would leave an empty image"@,
            PipelineError::BorderNotFound => "no border offset candidate in the scan window"@,
            PipelineError::DimensionMismatch => "feature row length differs from the dataset's"@,
        }
    }
}

} // verus!
