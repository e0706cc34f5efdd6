//! Domain types and logic.
use vstd::prelude::*;
use vstd::string::*;

pub mod audio;
pub mod kvfs;
pub mod matcher;
pub mod pipeline;
pub mod preset;
pub mod scanner;
pub mod traits;

verus! {

/// Domain-specific errors.
#[derive(Debug, Clone)]
pub enum DomainError {
    /// Error during audio extraction.
    ExtractionError(String),
    /// Error during fingerprint generation.
    FingerprintError(String),
    /// Error during media file processing.
    MediaError(String),
    /// Error related to user input.
    InputError(String),
    /// An error that is reported by its message alone.
    Message(String),
}

/// The human-readable text of an error.
pub open spec fn error_text(e: DomainError) -> Seq<char> {
    match e {
        DomainError::ExtractionError(m) => "Audio extraction failed: "@ + m@,
        DomainError::FingerprintError(m) => "Fingerprint generation failed: "@ + m@,
        DomainError::MediaError(m) => "Media processing failed: "@ + m@,
        DomainError::InputError(m) => "User input error: "@ + m@,
        DomainError::Message(m) => m@,
    }
}

impl DomainError {
    /// The human-readable text of the error, as it is displayed.
    pub fn describe(&self) -> (r: String)
        ensures
            r@ == error_text(*self),
    {
        match self {
            DomainError::ExtractionError(m) => String::from_str("Audio extraction failed: ").concat(
                m.as_str(),
            ),
            DomainError::FingerprintError(m) => String::from_str(
                "Fingerprint generation failed: ",
            ).concat(m.as_str()),
            DomainError::MediaError(m) => String::from_str("Media processing failed: ").concat(
                m.as_str(),
            ),
            DomainError::InputError(m) => String::from_str("User input error: ").concat(
                m.as_str(),
            ),
            DomainError::Message(m) => m.clone(),
        }
    }
}

} // verus!
