use vstd::prelude::*;

verus! {

/// Why a filter refused to configure itself or to step.
#[derive(Debug, Clone, Copy, PartialEq, Eq, Structural)]
pub enum FilterError {
    /// A sample rate or time constant that is not positive, or a time
    /// constant so long that the derived gain vanishes.
    InvalidConfiguration,
    /// `step` was called before `setup`, or after the configuration changed.
    FilterNotReady,
}

} // verus!
