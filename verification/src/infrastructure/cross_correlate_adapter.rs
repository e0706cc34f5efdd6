//! Infrastructure adapter for high-precision cross-correlation matching: when a correlation is
//! computed, and which lag its peak stands for. The correlation itself, over floating-point
//! samples, is computed outside this crate.
use vstd::prelude::*;

verus! {

/// Adapter for the `cross_correlate` crate.
#[derive(Debug, Default)]
pub struct CrossCorrelationAdapter;

impl CrossCorrelationAdapter {
    /// Creates a new CrossCorrelationAdapter.
    pub fn new() -> (r: Self)
        ensures
            r == CrossCorrelationAdapter,
    {
        CrossCorrelationAdapter
    }

    /// Whether a correlation is computed: both signals must be non-empty (otherwise there is no
    /// match).
    pub fn correlates(&self, reference_len: usize, target_len: usize) -> (r: bool)
        ensures
            r == (reference_len > 0 && target_len > 0),
    {
        reference_len > 0 && target_len > 0
    }

    /// The lag at which the reference starts in the target, from the index of the peak of the
    /// full cross-correlation of the target with the reference: `peak - (reference_len - 1)`.
    pub fn lag_from_peak(&self, peak_index: usize, reference_len: usize) -> (r: isize)
        requires
            reference_len > 0,
            peak_index <= isize::MAX,
            reference_len <= isize::MAX,
        ensures
            r == peak_index - (reference_len - 1),
    {
        peak_index as isize - (reference_len as isize - 1)
    }
}

} // verus!
