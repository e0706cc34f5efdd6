//! Ports (traits) for external adapters.
use vstd::prelude::*;

use crate::domain::audio::AudioBuffer;
use crate::domain::DomainError;

verus! {

/// The longest reference fingerprint whose Hamming error against any window fits in `u32`.
pub const MAX_REFERENCE_LEN: usize = 134217727;

/// Port for track selection.
pub trait TrackSelector {
    /// Evaluates the media file and prompts the user to select an audio track index if there
    /// are several. If there is only one, returns 0. If there are none, errors out.
    fn prompt_track_index(&self, path: &str) -> Result<usize, DomainError>;

    /// Whether `r` is an outcome of selecting a track of the media file at `path` with the
    /// given index. An implementation states which outcomes it can give (one that prompts the
    /// user can give several); one that states nothing admits any outcome.
    closed spec fn selects(&self, path: Seq<char>, track_index: Option<usize>, r: Result<u32, DomainError>) -> bool {
        true
    }

    /// Selects an audio track of the media file: the given audio track index (0-based), or,
    /// without one, the index the user is prompted for. Returns the internal track id.
    fn select_track(&self, path: &str, track_index: Option<usize>) -> (r: Result<u32, DomainError>)
        ensures
            self.selects(path@, track_index, r),
    ;
}

/// Port for generating fingerprints from audio buffers.
pub trait Fingerprinter {
    /// Whether `r` is an outcome of fingerprinting `buffer` (any outcome, unless the
    /// implementation states its own).
    closed spec fn fingerprints(&self, buffer: AudioBuffer, r: Result<Vec<u32>, DomainError>) -> bool {
        true
    }

    /// Generates a fingerprint from the given audio buffer.
    fn generate_fingerprint(&self, buffer: &AudioBuffer) -> (r: Result<Vec<u32>, DomainError>)
        ensures
            self.fingerprints(*buffer, r),
    ;
}

/// Port for exporting an audio sample as a file.
pub trait SampleExporter {
    /// Extracts a portion of an audio track and saves it to a file.
    ///
    /// `range` is expected to be in the format 'HH:MM:SS-HH:MM:SS'.
    fn export_sample(&self, input: &str, track_id: u32, output: &str, range: &str) -> Result<
        (),
        DomainError,
    >;
}

/// Port for finding sub-fingerprint matches within a target fingerprint.
pub trait FingerprintMatcher {
    /// Whether `r` is an outcome of searching `target` for `reference` under `threshold` (any
    /// outcome, unless the implementation states its own).
    closed spec fn finds(&self, reference: Seq<u32>, target: Seq<u32>, threshold: u32, r: Option<usize>) -> bool {
        true
    }

    /// Finds the best match of the `reference` sub-fingerprint within the `target` fingerprint.
    ///
    /// Returns the index of the best match if the error is within the `threshold`,
    /// or `None` if no suitable match is found.
    fn find_match(&self, reference: &[u32], target: &[u32], threshold: u32) -> (r: Option<usize>)
        requires
            reference@.len() <= MAX_REFERENCE_LEN,
        ensures
            self.finds(reference@, target@, threshold, r),
    ;
}

/// Port for high-precision fine matching using cross-correlation.
pub trait FineMatcher {
    /// Whether `r` is an outcome of aligning `reference` within `target` (any outcome, unless
    /// the implementation states its own).
    closed spec fn aligns(&self, reference: Seq<i16>, target: Seq<i16>, r: Result<Option<isize>, DomainError>) -> bool {
        true
    }

    /// Finds the exact lag (in samples) of the `reference` within the `target` PCM data.
    ///
    /// Returns the lag if a match is found, or `None`.
    fn find_fine_match(&self, reference: &[i16], target: &[i16]) -> (r: Result<
        Option<isize>,
        DomainError,
    >)
        ensures
            self.aligns(reference@, target@, r),
    ;
}

} // verus!

