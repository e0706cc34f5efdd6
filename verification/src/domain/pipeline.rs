//! Typestate pattern for invariant integrity in the processing pipeline: each stage is a type,
//! and each transition consumes the stage before it.
use vstd::prelude::*;
use vstd::string::*;

use crate::domain::audio::AudioBuffer;
use crate::domain::traits::{FingerprintMatcher, Fingerprinter, TrackSelector, MAX_REFERENCE_LEN};
use crate::domain::DomainError;

verus! {

/// Initial state: a source media file path.
#[derive(Debug)]
pub struct SourceMedia {
    path: String,
}

/// State after track selection.
#[derive(Debug)]
pub struct SelectedTrack {
    path: String,
    track_id: u32,
}

/// State after audio extraction: contains buffered audio for intro and outro search spaces.
#[derive(Debug)]
pub struct SegmentedAudio {
    path: String,
    intro_buffer: AudioBuffer,
    outro_buffer: AudioBuffer,
}

/// State after fingerprint generation: contains fingerprints for intro and outro search spaces.
#[derive(Debug)]
pub struct SegmentedFingerprints {
    path: String,
    intro_fingerprint: Vec<u32>,
    outro_fingerprint: Vec<u32>,
}

/// State after audio extraction: contains raw samples.
#[derive(Debug)]
pub struct ExtractedAudio {
    path: String,
    buffer: AudioBuffer,
}

/// State after fingerprint generation: contains the fingerprint.
#[derive(Debug)]
pub struct FingerprintedMedia {
    path: String,
    fingerprint: Vec<u32>,
}

/// State after a match operation has been attempted.
#[derive(Debug)]
pub struct MatchResult {
    /// The media file that was matched.
    pub path: String,
    /// The index of the match, if one was found.
    pub match_index: Option<usize>,
}

/// The outcome of the track-selection transition for the selector's outcome `s`: the
/// selected track (same path, the selector's id), or the selector's error.
pub open spec fn track_outcome(path: Seq<char>, s: Result<u32, DomainError>, r: Result<
    SelectedTrack,
    DomainError,
>) -> bool {
    match s {
        Ok(id) => r matches Ok(t) && t.path_view() == path && t.track_id_view() == id,
        Err(e) => r == Err::<SelectedTrack, DomainError>(e),
    }
}

/// The outcome of the fingerprint transition for the fingerprinter's outcome `f`: the
/// fingerprinted media (same path, that fingerprint), or the fingerprinter's error.
pub open spec fn fingerprint_outcome(path: Seq<char>, f: Result<Vec<u32>, DomainError>, r: Result<
    FingerprintedMedia,
    DomainError,
>) -> bool {
    match f {
        Ok(v) => r matches Ok(m) && m.path_view() == path && m.fingerprint_view() == v@,
        Err(e) => r == Err::<FingerprintedMedia, DomainError>(e),
    }
}

impl SourceMedia {
    /// The media file's path.
    pub closed spec fn path_view(&self) -> Seq<char> {
        self.path@
    }

    /// Creates a new SourceMedia state.
    pub fn new(path: String) -> (r: Self)
        ensures
            r.path_view() == path@,
    {
        SourceMedia { path }
    }

    /// Transitions to SelectedTrack state by probing the file and selecting a track (the
    /// audio track at `track_index`, or the one the selector prompts for).
    pub fn select_track<S: TrackSelector>(self, selector: &S, track_index: Option<usize>) -> (r:
        Result<SelectedTrack, DomainError>)
        ensures
            exists|s: Result<u32, DomainError>|
                #[trigger] selector.selects(self.path_view(), track_index, s) && track_outcome(
                    self.path_view(),
                    s,
                    r,
                ),
    {
        let ghost path = self.path_view();
        let selection = selector.select_track(self.path.as_str(), track_index);
        let r = self.with_track(selection);
        assert(selector.selects(path, track_index, selection) && track_outcome(path, selection, r));
        r
    }

    /// The transition for the outcome of a track selection: the selected track id, or the
    /// selector's error.
    pub fn with_track(self, selection: Result<u32, DomainError>) -> (r: Result<
        SelectedTrack,
        DomainError,
    >)
        ensures
            track_outcome(self.path_view(), selection, r),
    {
        match selection {
            Ok(track_id) => Ok(SelectedTrack { path: self.path, track_id }),
            Err(e) => Err(e),
        }
    }
}

impl SelectedTrack {
    /// The media file's path.
    pub closed spec fn path_view(&self) -> Seq<char> {
        self.path@
    }

    /// The selected track's id.
    pub closed spec fn track_id_view(&self) -> u32 {
        self.track_id
    }

    /// Returns the media file's path.
    pub fn path(&self) -> (r: &str)
        ensures
            r@ == self.path_view(),
    {
        self.path.as_str()
    }

    /// Returns the selected track's id.
    pub fn track_id(&self) -> (r: u32)
        ensures
            r == self.track_id_view(),
    {
        self.track_id
    }

    /// Transitions to ExtractedAudio state with the audio extracted from the track.
    pub fn into_extracted(self, buffer: AudioBuffer) -> (r: ExtractedAudio)
        ensures
            r.path_view() == self.path_view(),
            r.buffer_view() == buffer,
    {
        ExtractedAudio { path: self.path, buffer }
    }

    /// Transitions to SegmentedAudio state with the audio of the intro and outro search spaces.
    pub fn into_segmented(self, intro_buffer: AudioBuffer, outro_buffer: AudioBuffer) -> (r:
        SegmentedAudio)
        ensures
            r.path_view() == self.path_view(),
            r.intro_view() == intro_buffer,
            r.outro_view() == outro_buffer,
    {
        SegmentedAudio { path: self.path, intro_buffer, outro_buffer }
    }
}

impl SegmentedAudio {
    /// The media file's path.
    pub closed spec fn path_view(&self) -> Seq<char> {
        self.path@
    }

    /// The audio of the intro search space.
    pub closed spec fn intro_view(&self) -> AudioBuffer {
        self.intro_buffer
    }

    /// The audio of the outro search space.
    pub closed spec fn outro_view(&self) -> AudioBuffer {
        self.outro_buffer
    }

    /// Transitions to SegmentedFingerprints state by generating fingerprints for both segments,
    /// the intro first; the first error stops the transition.
    pub fn generate_segmented_fingerprints<F: Fingerprinter>(self, fingerprinter: &F) -> (r:
        Result<SegmentedFingerprints, DomainError>)
        ensures
            exists|fi: Result<Vec<u32>, DomainError>|
                #[trigger] fingerprinter.fingerprints(self.intro_view(), fi) && match fi {
                    Err(e) => r == Err::<SegmentedFingerprints, DomainError>(e),
                    Ok(f1) => exists|fo: Result<Vec<u32>, DomainError>|
                        #[trigger] fingerprinter.fingerprints(self.outro_view(), fo) && match fo {
                            Err(e) => r == Err::<SegmentedFingerprints, DomainError>(e),
                            Ok(f2) => r matches Ok(sf) && sf.path_view() == self.path_view()
                                && sf.intro_view() == f1@ && sf.outro_view() == f2@,
                        },
                },
    {
        let ghost path = self.path_view();
        let ghost intro = self.intro_view();
        let ghost outro = self.outro_view();
        let fi = fingerprinter.generate_fingerprint(&self.intro_buffer);
        assert(fingerprinter.fingerprints(intro, fi));
        let intro_fingerprint = match fi {
            Ok(f) => f,
            Err(e) => return Err(e),
        };
        let fo = fingerprinter.generate_fingerprint(&self.outro_buffer);
        assert(fingerprinter.fingerprints(outro, fo));
        let outro_fingerprint = match fo {
            Ok(f) => f,
            Err(e) => return Err(e),
        };
        let r = self.with_fingerprints(intro_fingerprint, outro_fingerprint);
        assert(r.path_view() == path);
        Ok(r)
    }

    /// The transition for the two fingerprints generated from the segments.
    pub fn with_fingerprints(self, intro_fingerprint: Vec<u32>, outro_fingerprint: Vec<u32>) -> (r:
        SegmentedFingerprints)
        ensures
            r.path_view() == self.path_view(),
            r.intro_view() == intro_fingerprint@,
            r.outro_view() == outro_fingerprint@,
    {
        SegmentedFingerprints { path: self.path, intro_fingerprint, outro_fingerprint }
    }
}

impl SegmentedFingerprints {
    /// The media file's path.
    pub closed spec fn path_view(&self) -> Seq<char> {
        self.path@
    }

    /// The intro fingerprint.
    pub closed spec fn intro_view(&self) -> Seq<u32> {
        self.intro_fingerprint@
    }

    /// The outro fingerprint.
    pub closed spec fn outro_view(&self) -> Seq<u32> {
        self.outro_fingerprint@
    }

    /// Returns a reference to the intro fingerprint.
    pub fn intro_fingerprint(&self) -> (r: &[u32])
        ensures
            r@ == self.intro_view(),
    {
        self.intro_fingerprint.as_slice()
    }

    /// Returns a reference to the outro fingerprint.
    pub fn outro_fingerprint(&self) -> (r: &[u32])
        ensures
            r@ == self.outro_view(),
    {
        self.outro_fingerprint.as_slice()
    }

    /// Returns a reference to the source path.
    pub fn path(&self) -> (r: &str)
        ensures
            r@ == self.path_view(),
    {
        self.path.as_str()
    }
}

impl ExtractedAudio {
    /// The media file's path.
    pub closed spec fn path_view(&self) -> Seq<char> {
        self.path@
    }

    /// The extracted audio.
    pub closed spec fn buffer_view(&self) -> AudioBuffer {
        self.buffer
    }

    /// Transitions to FingerprintedMedia state by generating a fingerprint.
    pub fn generate_fingerprint<F: Fingerprinter>(self, fingerprinter: &F) -> (r: Result<
        FingerprintedMedia,
        DomainError,
    >)
        ensures
            exists|f: Result<Vec<u32>, DomainError>|
                #[trigger] fingerprinter.fingerprints(self.buffer_view(), f) && fingerprint_outcome(
                    self.path_view(),
                    f,
                    r,
                ),
    {
        let ghost path = self.path_view();
        let ghost buffer = self.buffer_view();
        let fingerprint = fingerprinter.generate_fingerprint(&self.buffer);
        let r = self.with_fingerprint(fingerprint);
        assert(fingerprinter.fingerprints(buffer, fingerprint) && fingerprint_outcome(
            path,
            fingerprint,
            r,
        ));
        r
    }

    /// The transition for the outcome of fingerprint generation: the fingerprint, or the
    /// fingerprinter's error.
    pub fn with_fingerprint(self, fingerprint: Result<Vec<u32>, DomainError>) -> (r: Result<
        FingerprintedMedia,
        DomainError,
    >)
        ensures
            fingerprint_outcome(self.path_view(), fingerprint, r),
    {
        match fingerprint {
            Ok(fingerprint) => Ok(FingerprintedMedia { path: self.path, fingerprint }),
            Err(e) => Err(e),
        }
    }

    /// Returns a reference to the audio buffer.
    pub fn buffer(&self) -> (r: &AudioBuffer)
        ensures
            *r == self.buffer_view(),
    {
        &self.buffer
    }
}

impl FingerprintedMedia {
    /// The media file's path.
    pub closed spec fn path_view(&self) -> Seq<char> {
        self.path@
    }

    /// The fingerprint.
    pub closed spec fn fingerprint_view(&self) -> Seq<u32> {
        self.fingerprint@
    }

    /// Returns a reference to the fingerprint.
    pub fn fingerprint(&self) -> (r: &[u32])
        ensures
            r@ == self.fingerprint_view(),
    {
        self.fingerprint.as_slice()
    }

    /// Returns a reference to the source path.
    pub fn path(&self) -> (r: &str)
        ensures
            r@ == self.path_view(),
    {
        self.path.as_str()
    }

    /// Transitions to MatchResult state by attempting to find a sub-fingerprint match of
    /// `reference` in this fingerprint; the attempt itself always succeeds.
    pub fn find_match<M: FingerprintMatcher>(&self, matcher: &M, reference: &[u32], threshold: u32) -> (r:
        Result<MatchResult, DomainError>)
        requires
            reference@.len() <= MAX_REFERENCE_LEN,
        ensures
            r matches Ok(m) && m.path@ == self.path_view() && matcher.finds(
                reference@,
                self.fingerprint_view(),
                threshold,
                m.match_index,
            ),
    {
        let match_index = matcher.find_match(reference, self.fingerprint.as_slice(), threshold);
        Ok(MatchResult { path: self.path.clone(), match_index })
    }
}

} // verus!
