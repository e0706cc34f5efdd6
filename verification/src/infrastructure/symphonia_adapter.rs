//! Symphonia adapter for audio extraction: timestamp and range parsing, audio track
//! selection, packet and frame selection, and the WAV export bytes.
use vstd::prelude::*;
use vstd::string::*;

use crate::domain::audio::{encode_wav, wav_encodable, wav_spec, AudioBuffer};
use crate::domain::DomainError;
use crate::text::{
    contains_char, decimal, decimal_string, lemma_split_no_sep, split_char, split_seq, str_views,
};

verus! {

/// Target sample rate for Chromaprint.
pub const TARGET_SAMPLE_RATE: u32 = 11025;

/// Mono channel.
pub const TARGET_CHANNELS: u16 = 1;

/// Adapter for Symphonia operations.
#[derive(Debug, Default)]
pub struct SymphoniaAdapter;

/// The fields of a timestamp, before they are read as numbers: seconds alone (no `:`),
/// `MM:SS`, or `HH:MM:SS`.
#[derive(Debug, Clone)]
pub enum TimestampFields {
    /// A number of seconds.
    Seconds(String),
    /// Minutes and seconds.
    MinutesSeconds(String, String),
    /// Hours, minutes and seconds.
    HoursMinutesSeconds(String, String, String),
}

impl View for TimestampFields {
    type V = Seq<Seq<char>>;

    /// The field texts, most significant first.
    open spec fn view(&self) -> Seq<Seq<char>> {
        match self {
            TimestampFields::Seconds(s) => seq![s@],
            TimestampFields::MinutesSeconds(m, s) => seq![m@, s@],
            TimestampFields::HoursMinutesSeconds(h, m, s) => seq![h@, m@, s@],
        }
    }
}

/// The message for a timestamp with more than three fields.
pub open spec fn bad_timestamp_message(hms: Seq<char>) -> Seq<char> {
    "Invalid timestamp format: "@ + hms + ". Expected HH:MM:SS, MM:SS or seconds as float."@
}

/// A sample range, before its bounds are read as numbers.
#[derive(Debug, Clone)]
pub enum SampleRange {
    /// `start-end`, each a timestamp.
    Absolute { start: String, end: String },
    /// `start,end`, each a fraction of the track's duration.
    Relative { start: String, end: String },
}

/// The message for a `-` range that is not two timestamps.
pub open spec fn absolute_range_message() -> Seq<char> {
    "Range must be in 'HH:MM:SS-HH:MM:SS' format"@
}

/// The message for a `,` range that is not two numbers.
pub open spec fn relative_range_message() -> Seq<char> {
    "Relative range must be 'start,end' floats"@
}

/// The message for a range with neither `-` nor `,`.
pub open spec fn unknown_range_message() -> Seq<char> {
    "Range format not recognized"@
}

/// How a media track describes itself, as far as track selection reads it.
#[derive(Debug, Clone, Copy)]
pub struct TrackInfo {
    /// The container's track id.
    pub id: u32,
    /// Whether the track's codec is the null codec.
    pub codec_is_null: bool,
    /// Whether the track declares its channels.
    pub has_channels: bool,
    /// Whether the track declares its sample rate.
    pub has_sample_rate: bool,
}

/// An audio track: a real codec, and channels or a sample rate declared.
pub open spec fn is_audio_track(t: TrackInfo) -> bool {
    !t.codec_is_null && (t.has_channels || t.has_sample_rate)
}

/// The ids of the audio tracks, in track order.
pub open spec fn audio_ids(tracks: Seq<TrackInfo>) -> Seq<u32>
    decreases tracks.len(),
{
    if tracks.len() == 0 {
        Seq::<u32>::empty()
    } else if is_audio_track(tracks.last()) {
        audio_ids(tracks.drop_last()).push(tracks.last().id)
    } else {
        audio_ids(tracks.drop_last())
    }
}

/// The message when a file has no audio track.
pub open spec fn no_audio_message() -> Seq<char> {
    "No audio tracks found"@
}

/// The message for an audio track index past the last audio track.
pub open spec fn track_out_of_bounds_message(index: nat, count: nat) -> Seq<char> {
    "Track index "@ + decimal(index) + " is out of bounds. Found "@ + decimal(count)
        + " audio tracks."@
}

/// What track selection does next.
#[derive(Debug, Clone, Copy)]
pub enum TrackDecision {
    /// The track with this id is selected.
    Chosen(u32),
    /// The user must be asked for an audio track index.
    Prompt,
}

/// The timestamps (in the track's time base) of the extracted range: `start_pts` included,
/// `end_pts` excluded.
#[derive(Debug, Clone, Copy)]
pub struct PtsWindow {
    /// The first timestamp kept.
    pub start_pts: u64,
    /// The first timestamp past the range.
    pub end_pts: u64,
}

/// What to do with the next packet of the track.
#[derive(Debug, Clone, Copy, PartialEq, Eq, Structural)]
pub enum PacketAction {
    /// The packet ends before the range: read the next one.
    Skip,
    /// The packet starts at or after the range's end: stop reading.
    Stop,
    /// Decode the packet.
    Decode,
}

/// Whether the frame at offset `f` of a packet starting at `packet_pts` lies in the window.
pub open spec fn frame_in_window(w: PtsWindow, packet_pts: u64, f: int) -> bool {
    w.start_pts <= packet_pts + f < w.end_pts
}

/// The first frame (from a packet's start) at or after `start_pts`, as an offset.
pub open spec fn first_kept(w: PtsWindow, packet_pts: u64) -> int {
    if w.start_pts > packet_pts {
        w.start_pts - packet_pts
    } else {
        0
    }
}

/// The first frame offset past the kept frames (never before [`first_kept`]).
pub open spec fn past_kept(w: PtsWindow, packet_pts: u64) -> int {
    let e = if w.end_pts > packet_pts {
        w.end_pts - packet_pts
    } else {
        0int
    };
    if e < first_kept(w, packet_pts) {
        first_kept(w, packet_pts)
    } else {
        e
    }
}

/// The smaller of two integers.
pub open spec fn min_int(a: int, b: int) -> int {
    if a < b {
        a
    } else {
        b
    }
}

impl SymphoniaAdapter {
    /// Creates a new SymphoniaAdapter.
    pub fn new() -> (r: Self)
        ensures
            r == SymphoniaAdapter,
    {
        SymphoniaAdapter
    }

    /// Splits a timestamp (`HH:MM:SS`, `MM:SS`, or seconds as a number) into its fields.
    /// A timestamp without `:` is one field of seconds; one with more than three fields is
    /// refused.
    pub fn split_timestamp(&self, hms: &str) -> (r: Result<TimestampFields, DomainError>)
        ensures
            match r {
                Ok(f) => f@ == split_seq(hms@, ':') && 1 <= f@.len() <= 3,
                Err(e) => split_seq(hms@, ':').len() > 3 && (e matches DomainError::InputError(
                    m,
                ) && m@ == bad_timestamp_message(hms@)),
            },
    {
        if !contains_char(hms, ':') {
            proof { lemma_split_no_sep(hms@, ':'); }
            return Ok(TimestampFields::Seconds(String::from_str(hms)));
        }
        let parts = split_char(hms, ':');
        proof {
            assert(str_views(parts@).len() == parts@.len());
            if parts@.len() >= 1 {
                assert(str_views(parts@)[0] == parts@[0]@);
            }
            if parts@.len() >= 2 {
                assert(str_views(parts@)[1] == parts@[1]@);
            }
            if parts@.len() >= 3 {
                assert(str_views(parts@)[2] == parts@[2]@);
            }
        }
        if parts.len() == 3 {
            let f = TimestampFields::HoursMinutesSeconds(
                String::from_str(parts[0]),
                String::from_str(parts[1]),
                String::from_str(parts[2]),
            );
            assert(f@ =~= str_views(parts@));
            Ok(f)
        } else if parts.len() == 2 {
            let f = TimestampFields::MinutesSeconds(
                String::from_str(parts[0]),
                String::from_str(parts[1]),
            );
            assert(f@ =~= str_views(parts@));
            Ok(f)
        } else {
            proof { crate::text::lemma_split_nonempty(hms@, ':'); }
            assert(parts@.len() != 1) by {
                if parts@.len() == 1 {
                    // one piece means no separator: the whole text
                    assert(split_seq(hms@, ':').len() == 1);
                    lemma_one_piece_no_sep(hms@, ':');
                }
            }
            let msg = String::from_str("Invalid timestamp format: ").concat(hms).concat(
                ". Expected HH:MM:SS, MM:SS or seconds as float.",
            );
            Err(DomainError::InputError(msg))
        }
    }

    /// Reads a sample range: `start-end` (timestamps) when it holds `-`, otherwise
    /// `start,end` (fractions of the duration) when it holds `,`.
    pub fn parse_sample_range(&self, range: &str) -> (r: Result<SampleRange, DomainError>)
        ensures
            range@.contains('-') ==> {
                let p = split_seq(range@, '-');
                match r {
                    Ok(SampleRange::Absolute { start, end }) => p.len() == 2 && start@ == p[0]
                        && end@ == p[1],
                    Ok(SampleRange::Relative { .. }) => false,
                    Err(e) => p.len() != 2 && (e matches DomainError::InputError(m) && m@
                        == absolute_range_message()),
                }
            },
            !range@.contains('-') && range@.contains(',') ==> {
                let p = split_seq(range@, ',');
                match r {
                    Ok(SampleRange::Relative { start, end }) => p.len() == 2 && start@ == p[0]
                        && end@ == p[1],
                    Ok(SampleRange::Absolute { .. }) => false,
                    Err(e) => p.len() != 2 && (e matches DomainError::InputError(m) && m@
                        == relative_range_message()),
                }
            },
            !range@.contains('-') && !range@.contains(',') ==> (r matches Err(
                DomainError::InputError(m),
            ) && m@ == unknown_range_message()),
    {
        if contains_char(range, '-') {
            let parts = split_char(range, '-');
            if parts.len() != 2 {
                return Err(
                    DomainError::InputError(
                        String::from_str("Range must be in 'HH:MM:SS-HH:MM:SS' format"),
                    ),
                );
            }
            assert(str_views(parts@)[0] == parts@[0]@);
            assert(str_views(parts@)[1] == parts@[1]@);
            Ok(
                SampleRange::Absolute {
                    start: String::from_str(parts[0]),
                    end: String::from_str(parts[1]),
                },
            )
        } else if contains_char(range, ',') {
            let parts = split_char(range, ',');
            if parts.len() != 2 {
                return Err(
                    DomainError::InputError(
                        String::from_str("Relative range must be 'start,end' floats"),
                    ),
                );
            }
            assert(str_views(parts@)[0] == parts@[0]@);
            assert(str_views(parts@)[1] == parts@[1]@);
            Ok(
                SampleRange::Relative {
                    start: String::from_str(parts[0]),
                    end: String::from_str(parts[1]),
                },
            )
        } else {
            Err(DomainError::InputError(String::from_str("Range format not recognized")))
        }
    }

    /// The ids of the audio tracks (a real codec, and channels or a sample rate), in order.
    pub fn audio_track_ids(&self, tracks: &Vec<TrackInfo>) -> (r: Vec<u32>)
        ensures
            r@ == audio_ids(tracks@),
    {
        let mut out: Vec<u32> = Vec::new();
        let mut i: usize = 0;
        assert(tracks@.take(0) =~= Seq::<TrackInfo>::empty());
        while i < tracks.len()
            invariant
                i <= tracks@.len(),
                out@ == audio_ids(tracks@.take(i as int)),
            decreases tracks.len() - i,
        {
            let t = tracks[i];
            assert(tracks@.take(i + 1).drop_last() =~= tracks@.take(i as int));
            if !t.codec_is_null && (t.has_channels || t.has_sample_rate) {
                out.push(t.id);
            }
            i = i + 1;
        }
        assert(tracks@.take(tracks@.len() as int) =~= tracks@);
        out
    }

    /// Whether the user must be asked for an audio track: none is an error, a single audio
    /// track is index `0`, several need the prompt (`None`).
    pub fn prompt_plan(&self, audio_track_count: usize) -> (r: Result<Option<usize>, DomainError>)
        ensures
            audio_track_count == 0 ==> (r matches Err(DomainError::ExtractionError(m)) && m@
                == no_audio_message()),
            audio_track_count == 1 ==> r == Ok::<Option<usize>, DomainError>(Some(0usize)),
            audio_track_count > 1 ==> r == Ok::<Option<usize>, DomainError>(None),
    {
        if audio_track_count == 0 {
            Err(DomainError::ExtractionError(String::from_str("No audio tracks found")))
        } else if audio_track_count == 1 {
            Ok(Some(0))
        } else {
            Ok(None)
        }
    }

    /// The id of the audio track at `index` (0-based among the audio tracks).
    pub fn pick_track(&self, audio_ids: &Vec<u32>, index: usize) -> (r: Result<u32, DomainError>)
        ensures
            index < audio_ids@.len() ==> r == Ok::<u32, DomainError>(audio_ids@[index as int]),
            index >= audio_ids@.len() ==> (r matches Err(DomainError::InputError(m)) && m@
                == track_out_of_bounds_message(index as nat, audio_ids@.len())),
    {
        if index < audio_ids.len() {
            Ok(audio_ids[index])
        } else {
            let mut m = String::from_str("Track index ");
            m.append(decimal_string(index).as_str());
            m.append(" is out of bounds. Found ");
            m.append(decimal_string(audio_ids.len()).as_str());
            m.append(" audio tracks.");
            Err(DomainError::InputError(m))
        }
    }

    /// Track selection before any prompt: no audio track is an error; a given index picks
    /// its track (or is refused as out of bounds); without one, the user must be asked.
    pub fn decide_track(&self, audio_ids: &Vec<u32>, track_index: Option<usize>) -> (r: Result<
        TrackDecision,
        DomainError,
    >)
        ensures
            audio_ids@.len() == 0 ==> (r matches Err(DomainError::ExtractionError(m)) && m@
                == no_audio_message()),
            audio_ids@.len() > 0 ==> match track_index {
                None => r matches Ok(TrackDecision::Prompt),
                Some(i) => if i < audio_ids@.len() {
                    r matches Ok(TrackDecision::Chosen(id)) && id == audio_ids@[i as int]
                } else {
                    r matches Err(DomainError::InputError(m)) && m@ == track_out_of_bounds_message(
                        i as nat,
                        audio_ids@.len(),
                    )
                },
            },
    {
        if audio_ids.len() == 0 {
            return Err(DomainError::ExtractionError(String::from_str("No audio tracks found")));
        }
        match track_index {
            None => Ok(TrackDecision::Prompt),
            Some(i) => match self.pick_track(audio_ids, i) {
                Ok(id) => Ok(TrackDecision::Chosen(id)),
                Err(e) => Err(e),
            },
        }
    }

    /// What to do with a packet when extracting PCM: skip it when it ends before the range,
    /// stop at the first packet that starts at or after the range's end, decode it otherwise.
    pub fn pcm_packet_action(&self, w: PtsWindow, packet_pts: u64, packet_dur: u64) -> (r:
        PacketAction)
        requires
            packet_pts + packet_dur <= u64::MAX,
        ensures
            r == (if packet_pts + packet_dur < w.start_pts {
                PacketAction::Skip
            } else if packet_pts >= w.end_pts {
                PacketAction::Stop
            } else {
                PacketAction::Decode
            }),
    {
        if packet_pts + packet_dur < w.start_pts {
            PacketAction::Skip
        } else if packet_pts >= w.end_pts {
            PacketAction::Stop
        } else {
            PacketAction::Decode
        }
    }

    /// What to do with a packet when extracting for resampling: stop at the first packet
    /// that starts at or after the range's end, decode every other.
    pub fn range_packet_action(&self, w: PtsWindow, packet_pts: u64) -> (r: PacketAction)
        ensures
            r == (if packet_pts >= w.end_pts {
                PacketAction::Stop
            } else {
                PacketAction::Decode
            }),
    {
        if packet_pts >= w.end_pts {
            PacketAction::Stop
        } else {
            PacketAction::Decode
        }
    }

    /// The frames of a decoded packet that lie in the range: frame `f` has timestamp
    /// `packet_pts + f`, and the result `(lo, hi)` holds exactly the frames of the range.
    pub fn kept_frames(&self, w: PtsWindow, packet_pts: u64, frames: usize) -> (r: (usize, usize))
        requires
            packet_pts + frames <= u64::MAX,
        ensures
            r.0 <= r.1 <= frames,
            forall|f: int|
                0 <= f < frames ==> ((r.0 <= f < r.1) <==> #[trigger] frame_in_window(
                    w,
                    packet_pts,
                    f,
                )),
    {
        let fr = frames as u64;
        let lo: u64 = if w.start_pts <= packet_pts {
            0
        } else if w.start_pts - packet_pts < fr {
            w.start_pts - packet_pts
        } else {
            fr
        };
        let mut hi: u64 = if w.end_pts <= packet_pts {
            0
        } else if w.end_pts - packet_pts < fr {
            w.end_pts - packet_pts
        } else {
            fr
        };
        if hi < lo {
            hi = lo;
        }
        (lo as usize, hi as usize)
    }

    /// Appends the samples of the packet's frames that lie in the range, frame by frame
    /// (`channels` interleaved samples per frame, the last frame possibly short), stopping at
    /// the first frame at or past the range's end.
    pub fn take_pcm_frames(
        &self,
        w: PtsWindow,
        samples: &[i16],
        channels: usize,
        packet_pts: u64,
        out: &mut Vec<i16>,
    )
        requires
            channels > 0,
            packet_pts + samples@.len() <= u64::MAX,
        ensures
            final(out)@ == old(out)@ + samples@.subrange(
                min_int(first_kept(w, packet_pts) * channels, samples@.len() as int),
                min_int(past_kept(w, packet_pts) * channels, samples@.len() as int),
            ),
    {
        let len = samples.len();
        let ghost lo = first_kept(w, packet_pts);
        let ghost hi = past_kept(w, packet_pts);
        let ghost a = min_int(lo * channels, len as int);
        let ghost b = min_int(hi * channels, len as int);
        let ghost start_len = out@.len();
        let ghost before = out@;
        let mut current = packet_pts;
        let mut i: usize = 0;
        assert(samples@.subrange(a, a) =~= Seq::<i16>::empty());
        assert(0 * channels == 0) by (nonlinear_arith);
        while i < len && current < w.end_pts
            invariant
                len == samples@.len(),
                channels > 0,
                packet_pts + len <= u64::MAX,
                lo == first_kept(w, packet_pts),
                hi == past_kept(w, packet_pts),
                a == min_int(lo * channels, len as int),
                b == min_int(hi * channels, len as int),
                packet_pts <= current,
                current - packet_pts <= len,
                i == min_int((current - packet_pts) * channels, len as int),
                current - packet_pts <= hi,
                out@ == before + samples@.subrange(a, if i < a {
                    a
                } else {
                    i as int
                }),
            decreases len - i,
        {
            let ghost j = current - packet_pts;
            let count = if channels < len - i {
                channels
            } else {
                len - i
            };
            assert(i == j * channels);
            assert(j <= j * channels) by (nonlinear_arith)
                requires
                    channels > 0,
                    j >= 0,
            ;
            assert((j + 1) * channels == j * channels + channels) by (nonlinear_arith);
            if current >= w.start_pts {
                let ghost prev = out@;
                let piece = &samples[i..i + count];
                let mut k: usize = 0;
                while k < count
                    invariant
                        k <= count,
                        i + count <= len,
                        piece@ == samples@.subrange(i as int, i + count),
                        piece@.len() == count,
                        out@ == prev + piece@.take(k as int),
                    decreases count - k,
                {
                    out.push(piece[k]);
                    assert(piece@.take(k + 1) =~= piece@.take(k as int).push(piece@[k as int]));
                    k = k + 1;
                }
                assert(piece@.take(count as int) =~= piece@);
                assert(lo <= j) by {
                    assert(w.start_pts <= packet_pts + j);
                }
                assert(lo * channels <= j * channels) by (nonlinear_arith)
                    requires
                        lo <= j,
                        channels > 0,
                ;
                assert(a <= i);
                assert(out@ =~= before + samples@.subrange(a, i + count));
            } else {
                assert(j < lo);
                assert((j + 1) * channels <= lo * channels) by (nonlinear_arith)
                    requires
                        j + 1 <= lo,
                        channels > 0,
                ;
            }
            i = i + count;
            current = current + 1;
        }
        proof {
            let j = current - packet_pts;
            if i >= len {
                assert(j * channels >= len);
                assert(hi * channels >= j * channels) by (nonlinear_arith)
                    requires
                        hi >= j,
                        channels > 0,
                ;
            } else {
                assert(current >= w.end_pts);
                assert(i == j * channels);
                if lo <= j {
                    assert(j == hi);
                    assert(lo * channels <= j * channels) by (nonlinear_arith)
                        requires
                            lo <= j,
                            channels > 0,
                    ;
                } else {
                    assert(hi == lo);
                    assert(j * channels <= lo * channels) by (nonlinear_arith)
                        requires
                            j <= lo,
                            channels > 0,
                    ;
                }
            }
        }
        assert(out@ =~= before + samples@.subrange(a, b));
    }

    /// The bytes of the WAV file that exports the buffer (44-byte header, 16-bit PCM).
    pub fn wav_bytes(&self, buffer: &AudioBuffer) -> (r: Vec<u8>)
        requires
            wav_encodable(buffer.samples@.len(), buffer.sample_rate, buffer.channels),
        ensures
            r@ == wav_spec(buffer.samples@, buffer.sample_rate, buffer.channels),
    {
        encode_wav(buffer)
    }
}

/// A text splits into a single piece only when the separator does not occur in it.
pub proof fn lemma_one_piece_no_sep(s: Seq<char>, sep: char)
    requires
        split_seq(s, sep).len() == 1,
    ensures
        !s.contains(sep),
    decreases s.len(),
{
    if s.len() > 0 {
        crate::text::lemma_split_nonempty(s.drop_last(), sep);
        if s.last() == sep {
            assert(split_seq(s, sep).len() == split_seq(s.drop_last(), sep).len() + 1);
        } else {
            lemma_one_piece_no_sep(s.drop_last(), sep);
            assert forall|i: int| 0 <= i < s.len() implies s[i] != sep by {
                if i < s.len() - 1 {
                    assert(s.drop_last()[i] == s[i]);
                }
            }
        }
    }
}

/// The audio tracks of a list are those of its parts, in order: the ids of a concatenation
/// are the ids of the first part followed by those of the second.
pub proof fn law_audio_ids_concat(a: Seq<TrackInfo>, b: Seq<TrackInfo>)
    ensures
        audio_ids(a + b) == audio_ids(a) + audio_ids(b),
    decreases b.len(),
{
    if b.len() == 0 {
        assert(a + b =~= a);
        assert(audio_ids(b) =~= Seq::<u32>::empty());
        assert(audio_ids(a) + audio_ids(b) =~= audio_ids(a));
    } else {
        law_audio_ids_concat(a, b.drop_last());
        assert((a + b).drop_last() =~= a + b.drop_last());
        assert((a + b).last() == b.last());
        assert((audio_ids(a) + audio_ids(b.drop_last())).push(b.last().id) =~= audio_ids(a) + audio_ids(
            b.drop_last(),
        ).push(b.last().id));
    }
}

/// A single track is selectable exactly when its codec is not the null codec and it declares
/// its channel count or its sample rate (either one, or both): then its id is kept, otherwise
/// it is dropped. With the concatenation law this fixes the audio ids of every track list.
pub proof fn law_audio_track_kept(t: TrackInfo)
    ensures
        audio_ids(seq![t]) == (if !t.codec_is_null && (t.has_channels || t.has_sample_rate) {
            seq![t.id]
        } else {
            Seq::<u32>::empty()
        }),
        (!t.codec_is_null && t.has_channels && t.has_sample_rate) ==> audio_ids(seq![t]) == seq![
            t.id,
        ],
{
    let s = seq![t];
    assert(s.drop_last() =~= Seq::<TrackInfo>::empty());
    assert(s.last() == t);
    assert(audio_ids(Seq::<TrackInfo>::empty()).push(t.id) =~= seq![t.id]);
}

/// Every track with a real codec that declares its channels or its sample rate has its id
/// among the audio ids.
pub proof fn law_declared_tracks_are_audio(tracks: Seq<TrackInfo>, i: int)
    requires
        0 <= i < tracks.len(),
        !tracks[i].codec_is_null,
        tracks[i].has_channels || tracks[i].has_sample_rate,
    ensures
        audio_ids(tracks).contains(tracks[i].id),
{
    let a = tracks.take(i);
    let b = tracks.subrange(i, tracks.len() as int);
    assert(tracks =~= a + b);
    let c = b.drop_first();
    assert(b =~= seq![tracks[i]] + c);
    law_audio_ids_concat(a, b);
    law_audio_ids_concat(seq![tracks[i]], c);
    law_audio_track_kept(tracks[i]);
    let ids = audio_ids(tracks);
    assert(ids[audio_ids(a).len() as int] == tracks[i].id);
}

} // verus!
