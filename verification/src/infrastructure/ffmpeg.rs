//! FFmpeg adapter for audio extraction: range and timestamp parsing, audio stream choice, the
//! sample-accurate copy plan for decoded frames, and the WAV export bytes.
use vstd::prelude::*;
use vstd::string::*;

use crate::domain::audio::{encode_wav, wav_encodable, wav_spec, AudioBuffer};
use crate::domain::DomainError;
use crate::text::{lemma_split_concat, lemma_split_no_sep, split_char, split_seq, str_views};

verus! {

/// Adapter for FFmpeg operations.
#[derive(Debug, Default)]
pub struct FfmpegAdapter;

/// The message for a range that is not two timestamps joined by `-`.
pub open spec fn range_format_message() -> Seq<char> {
    "Range must be in 'HH:MM:SS-HH:MM:SS' format"@
}

/// The message for a timestamp that is not `HH:MM:SS`.
pub open spec fn hms_format_message(hms: Seq<char>) -> Seq<char> {
    "Invalid timestamp format: "@ + hms + ". Expected HH:MM:SS"@
}

/// The message when a file has no audio stream.
pub open spec fn no_audio_stream_message() -> Seq<char> {
    "No audio streams found"@
}

/// Which samples (per channel) of a decoded frame are copied.
#[derive(Debug, Clone, Copy)]
pub struct FrameCopy {
    /// The first sample of the frame that is copied.
    pub offset: usize,
    /// How many samples are copied (possibly none).
    pub count: usize,
}

/// The saturating difference `a - b` (0 when `b > a`).
pub open spec fn sat_sub(a: int, b: int) -> int {
    if a >= b {
        a - b
    } else {
        0
    }
}

impl FfmpegAdapter {
    /// Creates a new FfmpegAdapter.
    pub fn new() -> (r: Self)
        ensures
            r == FfmpegAdapter,
    {
        FfmpegAdapter
    }

    /// Parses a timestamp range in the format 'HH:MM:SS-HH:MM:SS' into (start, end) strings.
    pub fn parse_range<'a>(&self, range: &'a str) -> (r: Result<(&'a str, &'a str), DomainError>)
        ensures
            ({
                let p = split_seq(range@, '-');
                match r {
                    Ok((a, b)) => p.len() == 2 && a@ == p[0] && b@ == p[1],
                    Err(e) => p.len() != 2 && (e matches DomainError::InputError(m) && m@
                        == range_format_message()),
                }
            }),
    {
        let parts = split_char(range, '-');
        if parts.len() != 2 {
            return Err(
                DomainError::InputError(
                    String::from_str("Range must be in 'HH:MM:SS-HH:MM:SS' format"),
                ),
            );
        }
        assert(str_views(parts@)[0] == parts@[0]@);
        assert(str_views(parts@)[1] == parts@[1]@);
        Ok((parts[0], parts[1]))
    }

    /// Splits an `HH:MM:SS` timestamp into its three fields.
    pub fn split_hms(&self, hms: &str) -> (r: Result<(String, String, String), DomainError>)
        ensures
            ({
                let p = split_seq(hms@, ':');
                match r {
                    Ok((h, m, s)) => p.len() == 3 && h@ == p[0] && m@ == p[1] && s@ == p[2],
                    Err(e) => p.len() != 3 && (e matches DomainError::InputError(msg) && msg@
                        == hms_format_message(hms@)),
                }
            }),
    {
        let parts = split_char(hms, ':');
        if parts.len() != 3 {
            let msg = String::from_str("Invalid timestamp format: ").concat(hms).concat(
                ". Expected HH:MM:SS",
            );
            return Err(DomainError::InputError(msg));
        }
        assert(str_views(parts@)[0] == parts@[0]@);
        assert(str_views(parts@)[1] == parts@[1]@);
        assert(str_views(parts@)[2] == parts@[2]@);
        Ok((String::from_str(parts[0]), String::from_str(parts[1]), String::from_str(parts[2])))
    }

    /// The audio stream to use among `audio_stream_count` audio streams: none is an error, a
    /// single one is position `0`, several need the prompt (`None`).
    pub fn stream_plan(&self, audio_stream_count: usize) -> (r: Result<Option<usize>, DomainError>)
        ensures
            audio_stream_count == 0 ==> (r matches Err(DomainError::ExtractionError(m)) && m@
                == no_audio_stream_message()),
            audio_stream_count == 1 ==> r == Ok::<Option<usize>, DomainError>(Some(0usize)),
            audio_stream_count > 1 ==> r == Ok::<Option<usize>, DomainError>(None),
    {
        if audio_stream_count == 0 {
            Err(DomainError::ExtractionError(String::from_str("No audio streams found")))
        } else if audio_stream_count == 1 {
            Ok(Some(0))
        } else {
            Ok(None)
        }
    }

    /// The copy plan for a decoded frame in sample-accurate extraction: a frame that ends
    /// before the target timestamp is skipped (`None`); a frame that starts before it has its
    /// first `samples_to_skip` samples dropped; and no more is copied than the
    /// `target_count - collected` samples still missing.
    pub fn plan_frame_copy(
        &self,
        frame_pts: i64,
        frame_end_pts: i64,
        target_pts: i64,
        samples_to_skip: usize,
        frame_samples: usize,
        collected: usize,
        target_count: usize,
    ) -> (r: Option<FrameCopy>)
        requires
            collected <= target_count,
            collected + frame_samples <= usize::MAX,
        ensures
            frame_end_pts < target_pts ==> r is None,
            frame_end_pts >= target_pts ==> ({
                let offset = if frame_pts < target_pts {
                    samples_to_skip as int
                } else {
                    0
                };
                let available = if frame_pts < target_pts {
                    sat_sub(frame_samples as int, samples_to_skip as int)
                } else {
                    frame_samples as int
                };
                let count = if collected + available > target_count {
                    target_count - collected
                } else {
                    available
                };
                r matches Some(c) && c.offset == offset && c.count == count
            }),
    {
        if frame_end_pts < target_pts {
            return None;
        }
        let (offset, available) = if frame_pts < target_pts {
            let a = if frame_samples >= samples_to_skip {
                frame_samples - samples_to_skip
            } else {
                0
            };
            (samples_to_skip, a)
        } else {
            (0, frame_samples)
        };
        let count = if collected + available > target_count {
            target_count - collected
        } else {
            available
        };
        Some(FrameCopy { offset, count })
    }

    /// The bytes of the WAV file that exports the buffer (44-byte header, 16-bit PCM).
    pub fn wav_bytes(&self, buffer: &AudioBuffer) -> (r: Vec<u8>)
        requires
            wav_encodable(buffer.samples@.len(), buffer.sample_rate, buffer.channels),
        ensures
            r@ == wav_spec(buffer.samples@, buffer.sample_rate, buffer.channels),
    {
        encode_wav(buffer)
    }
}

/// A range written as two timestamps joined by `-` (neither holding `-`) is read back as
/// those two timestamps.
pub proof fn law_range_roundtrip(start: Seq<char>, end: Seq<char>)
    requires
        !start.contains('-'),
        !end.contains('-'),
    ensures
        split_seq(start + seq!['-'] + end, '-') == seq![start, end],
{
    lemma_split_no_sep(start, '-');
    lemma_split_no_sep(end, '-');
    lemma_split_concat(start, '-', end);
    assert(seq![start] + seq![end] =~= seq![start, end]);
}

} // verus!
