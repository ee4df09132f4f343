//! Error kinds of the library.
use vstd::prelude::*;

verus! {

/// Everything recoverable that the core can report.
#[derive(Clone, Copy, Debug, PartialEq, Eq, Structural)]
pub enum DspError {
    /// The requested transform block length is not supported (it is zero).
    TransformError,
    /// The filter kernel is empty, or too long for a block to be planned.
    InvalidKernel,
    /// The stream's write permit cannot be acquired or its queue is closed.
    StreamWriteFailure,
    /// A one-shot filter run produced no samples: the input was shorter than
    /// one processing step.
    NoOutput,
}

} // verus!
