//! Chromaprint adapter for fingerprinting: the steps' outcomes and the raw fingerprint's
//! conversion. The Chromaprint context itself is driven outside this crate.
use vstd::prelude::*;
use vstd::string::*;

use crate::domain::DomainError;

verus! {

/// Adapter for Chromaprint operations.
#[derive(Debug, Default)]
pub struct ChromaprintAdapter;

/// A step of fingerprint generation that reports success or failure.
#[derive(Debug, Clone, Copy)]
pub enum ChromaprintStep {
    /// Starting the context with the sample rate and channel count.
    Start,
    /// Feeding the samples.
    Feed,
    /// Finishing the computation.
    Finish,
}

/// The message for a failed step.
pub open spec fn step_failure_message(step: ChromaprintStep) -> Seq<char> {
    match step {
        ChromaprintStep::Start => "Failed to start chromaprint"@,
        ChromaprintStep::Feed => "Failed to feed samples to chromaprint"@,
        ChromaprintStep::Finish => "Failed to finish chromaprint"@,
    }
}

/// The message when no raw fingerprint is available.
pub open spec fn no_fingerprint_message() -> Seq<char> {
    "Failed to get raw fingerprint"@
}

impl ChromaprintAdapter {
    /// Creates a new ChromaprintAdapter.
    pub fn new() -> (r: Self)
        ensures
            r == ChromaprintAdapter,
    {
        ChromaprintAdapter
    }

    /// The outcome of a step: success goes on, failure is a fingerprint error naming the step.
    pub fn check_step(&self, step: ChromaprintStep, succeeded: bool) -> (r: Result<(), DomainError>)
        ensures
            succeeded ==> r is Ok,
            !succeeded ==> (r matches Err(DomainError::FingerprintError(m)) && m@
                == step_failure_message(step)),
    {
        if succeeded {
            return Ok(());
        }
        let m = match step {
            ChromaprintStep::Start => String::from_str("Failed to start chromaprint"),
            ChromaprintStep::Feed => String::from_str("Failed to feed samples to chromaprint"),
            ChromaprintStep::Finish => String::from_str("Failed to finish chromaprint"),
        };
        Err(DomainError::FingerprintError(m))
    }

    /// The fingerprint from Chromaprint's raw fingerprint: each signed value reinterpreted as
    /// unsigned; no raw fingerprint is an error.
    pub fn fingerprint_from_raw(&self, raw: Option<Vec<i32>>) -> (r: Result<Vec<u32>, DomainError>)
        ensures
            match raw {
                None => r matches Err(DomainError::FingerprintError(m)) && m@
                    == no_fingerprint_message(),
                Some(v) => r matches Ok(f) && f@.len() == v@.len() && forall|i: int|
                    0 <= i < v@.len() ==> #[trigger] f@[i] == v@[i] as u32,
            },
    {
        match raw {
            None => Err(
                DomainError::FingerprintError(String::from_str("Failed to get raw fingerprint")),
            ),
            Some(v) => {
                let mut out: Vec<u32> = Vec::new();
                let mut i: usize = 0;
                while i < v.len()
                    invariant
                        i <= v@.len(),
                        out@.len() == i,
                        forall|j: int| 0 <= j < i ==> #[trigger] out@[j] == v@[j] as u32,
                    decreases v.len() - i,
                {
                    out.push(v[i] as u32);
                    i = i + 1;
                }
                Ok(out)
            },
        }
    }
}

} // verus!
