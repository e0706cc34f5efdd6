//! The decisions of a scan: which file is the reference, how the reference is cut from its
//! fingerprint and audio, the coarse-match threshold, and where a segment is located in a
//! target, coarsely by fingerprint and finely by cross-correlation.
use vstd::prelude::*;
use vstd::string::*;

use crate::domain::matcher::{match_spec, SlidingWindowMatcher, CHROMAPRINT_HOP_SAMPLES};
use crate::domain::traits::{FineMatcher, FingerprintMatcher, MAX_REFERENCE_LEN};
use crate::domain::DomainError;
use crate::text::{chars_of, contains_char, text_eq};

verus! {

/// The margin, in samples at 11025 Hz (five seconds), searched by cross-correlation on each
/// side of a coarse match.
pub const FINE_MARGIN_SAMPLES: usize = 55125;

/// The code of the character that `c` lower-cases to, for the characters whose lower case is
/// an ASCII letter: `A`-`Z`, and the Kelvin sign (U+212A), whose lower case is `k`. Every
/// other character that lower-cases to a single ASCII character is that character itself.
pub open spec fn ascii_fold(c: char) -> u32 {
    let u = c as u32;
    if 65 <= u <= 90 {
        (u + 32) as u32
    } else if u == 0x212A {
        107
    } else {
        u
    }
}

/// Whether a file extension, lower-cased, is `mkv` or `mp4` (the media files that are scanned).
pub open spec fn media_extension(ext: Seq<char>) -> bool {
    &&& ext.len() == 3
    &&& ascii_fold(ext[0]) == 109
    &&& (ascii_fold(ext[1]) == 107 && ascii_fold(ext[2]) == 118) || (ascii_fold(ext[1]) == 112
        && ascii_fold(ext[2]) == 52)
}

fn fold_char(c: char) -> (r: u32)
    ensures
        r == ascii_fold(c),
{
    let u = c as u32;
    if 65 <= u && u <= 90 {
        u + 32
    } else if u == 0x212A {
        107
    } else {
        u
    }
}

/// Whether a file with this extension is scanned: `mkv` or `mp4`, in any letter case.
pub fn is_media_extension(ext: &str) -> (r: bool)
    ensures
        r == media_extension(ext@),
{
    let cs = chars_of(ext);
    if cs.len() != 3 {
        return false;
    }
    let a = fold_char(cs[0]);
    let b = fold_char(cs[1]);
    let c = fold_char(cs[2]);
    a == 109 && ((b == 107 && c == 118) || (b == 112 && c == 52))
}

/// `a` and `b` name the same ASCII letter in different case, or are the same character.
pub open spec fn same_up_to_ascii_case(a: char, b: char) -> bool {
    ||| a == b
    ||| 65 <= (a as u32) <= 90 && (b as u32) == (a as u32) + 32
    ||| 65 <= (b as u32) <= 90 && (a as u32) == (b as u32) + 32
}

/// Scanning ignores letter case: two extensions that differ only in the case of ASCII letters
/// are both scanned or both skipped.
pub proof fn law_media_extension_ignores_case(e1: Seq<char>, e2: Seq<char>)
    requires
        e1.len() == e2.len(),
        forall|i: int| 0 <= i < e1.len() ==> same_up_to_ascii_case(#[trigger] e1[i], e2[i]),
    ensures
        media_extension(e1) == media_extension(e2),
{
    assert forall|i: int| 0 <= i < e1.len() implies ascii_fold(#[trigger] e1[i]) == ascii_fold(
        e2[i],
    ) by {
        assert(same_up_to_ascii_case(e1[i], e2[i]));
    }
    if e1.len() == 3 {
        assert(ascii_fold(e1[0]) == ascii_fold(e2[0]));
        assert(ascii_fold(e1[1]) == ascii_fold(e2[1]));
        assert(ascii_fold(e1[2]) == ascii_fold(e2[2]));
    }
}

/// An extension without upper-case letters is scanned exactly when it is `mkv` or `mp4`.
pub proof fn law_media_extension_lower(ext: Seq<char>)
    requires
        forall|i: int|
            0 <= i < ext.len() ==> !(65 <= (#[trigger] ext[i] as u32) <= 90) && ext[i] as u32
                != 0x212A,
    ensures
        media_extension(ext) <==> (ext == "mkv"@ || ext == "mp4"@),
{
    reveal_strlit("mkv");
    reveal_strlit("mp4");
    if ext.len() == 3 {
        assert(!(65 <= (ext[0] as u32) <= 90) && ext[0] as u32 != 0x212A);
        assert(!(65 <= (ext[1] as u32) <= 90) && ext[1] as u32 != 0x212A);
        assert(!(65 <= (ext[2] as u32) <= 90) && ext[2] as u32 != 0x212A);
        assert(ascii_fold(ext[0]) == ext[0] as u32);
        assert(ascii_fold(ext[1]) == ext[1] as u32);
        assert(ascii_fold(ext[2]) == ext[2] as u32);
        assert('m' as u32 == 109 && 'k' as u32 == 107 && 'v' as u32 == 118);
        assert('p' as u32 == 112 && '4' as u32 == 52);
        vstd::utf8::char_u32_cast(ext[0], ext[0] as u32);
        vstd::utf8::char_u32_cast(ext[1], ext[1] as u32);
        vstd::utf8::char_u32_cast(ext[2], ext[2] as u32);
        vstd::utf8::char_u32_cast('m', 109);
        vstd::utf8::char_u32_cast('k', 107);
        vstd::utf8::char_u32_cast('v', 118);
        vstd::utf8::char_u32_cast('p', 112);
        vstd::utf8::char_u32_cast('4', 52);
        if media_extension(ext) {
            assert(ext[0] == 'm');
            if ext[1] as u32 == 107 {
                assert(ext =~= "mkv"@);
            } else {
                assert(ext =~= "mp4"@);
            }
        }
        if ext == "mkv"@ {
            assert(ext[1] == 'k');
        }
    } else {
        assert(ext.len() != "mkv"@.len());
    }
}

/// Whether a file is scanned: always when a rescan is forced, otherwise only when the cache
/// holds no record for it.
pub fn needs_scan(force: bool, cached: bool) -> (r: bool)
    ensures
        r == (force || !cached),
{
    force || !cached
}

/// Whether scan results are written to the cache: not when they are printed as JSON instead.
pub fn writes_cache(json: bool) -> (r: bool)
    ensures
        r == !json,
{
    !json
}

/// The message when a bare reference name matches no processed file.
pub open spec fn reference_not_found_message(reference: Seq<char>) -> Seq<char> {
    "Reference file '"@ + reference + "' not found in processed files."@
}

/// The first position of `x` in `names`, if any.
pub open spec fn first_position(names: Seq<Seq<char>>, x: Seq<char>, i: int) -> bool {
    &&& 0 <= i < names.len()
    &&& names[i] == x
    &&& forall|j: int| 0 <= j < i ==> names[j] != x
}

/// The character views of a list of strings.
pub open spec fn string_views(v: Seq<String>) -> Seq<Seq<char>> {
    v.map_values(|s: String| s@)
}

/// The coarse-match threshold for a reference of `n` fingerprint values: a fifth of its bits.
pub open spec fn threshold_spec(n: nat) -> int {
    ((n * 32) / 5) as int
}

/// The window of target samples searched by cross-correlation around the coarse match at
/// fingerprint index `coarse_index`: from `FINE_MARGIN_SAMPLES` before the match (at least 0)
/// to `FINE_MARGIN_SAMPLES` past the reference's end (at most the target's end); none when
/// that is empty.
pub open spec fn fine_window_spec(coarse_index: nat, reference_len: nat, target_len: nat) -> Option<
    (int, int),
> {
    let c = coarse_index * CHROMAPRINT_HOP_SAMPLES;
    let start = if c >= FINE_MARGIN_SAMPLES {
        c - FINE_MARGIN_SAMPLES
    } else {
        0
    };
    let end = if c + reference_len + FINE_MARGIN_SAMPLES < target_len {
        c + reference_len + FINE_MARGIN_SAMPLES
    } else {
        target_len as int
    };
    if start < end {
        Some((start, end))
    } else {
        None
    }
}

/// Resolves the reference file: a reference holding the path separator `separator` is used as
/// given; a bare name is the first processed file of that name (`paths[i]` is the file named
/// `names[i]`).
pub fn resolve_reference(
    paths: &Vec<String>,
    names: &Vec<String>,
    reference: &str,
    separator: char,
) -> (r: Result<String, DomainError>)
    requires
        paths@.len() == names@.len(),
    ensures
        reference@.contains(separator) ==> (r matches Ok(p) && p@ == reference@),
        !reference@.contains(separator) ==> match r {
            Ok(p) => exists|i: int|
                first_position(string_views(names@), reference@, i) && p@ == paths@[i]@,
            Err(e) => (forall|i: int|
                0 <= i < names@.len() ==> names@[i]@ != reference@) && (e matches DomainError::Message(
                m,
            ) && m@ == reference_not_found_message(reference@)),
        },
{
    if contains_char(reference, separator) {
        return Ok(String::from_str(reference));
    }
    let mut i: usize = 0;
    while i < names.len()
        invariant
            paths@.len() == names@.len(),
            !reference@.contains(separator),
            i <= names@.len(),
            forall|j: int| 0 <= j < i ==> names@[j]@ != reference@,
        decreases names.len() - i,
    {
        if text_eq(names[i].as_str(), reference) {
            let p = paths[i].clone();
            assert forall|j: int| 0 <= j < names@.len() implies #[trigger] string_views(names@)[j]
                == names@[j]@ by {}
            assert(first_position(string_views(names@), reference@, i as int));
            return Ok(p);
        }
        i = i + 1;
    }
    let msg = String::from_str("Reference file '").concat(reference).concat(
        "' not found in processed files.",
    );
    Err(DomainError::Message(msg))
}

/// The coarse-match threshold for a reference of `reference_len` fingerprint values: a fifth
/// of its bits may differ.
pub fn coarse_threshold(reference_len: usize) -> (r: u32)
    requires
        reference_len <= MAX_REFERENCE_LEN,
    ensures
        r == threshold_spec(reference_len as nat),
{
    (reference_len as u32 * 32) / 5
}

/// The slice `[start, end)` of the reference's fingerprint that is the reference: `sample_ticks`
/// values from `fp_start`, cut at the fingerprint's end; none when `fp_start` lies past the end
/// of the fingerprint.
pub fn reference_window(fp_len: usize, fp_start: usize, sample_ticks: usize) -> (r: Option<
    (usize, usize),
>)
    requires
        fp_start + sample_ticks <= usize::MAX,
    ensures
        r == (if fp_start < fp_len {
            Some(
                (
                    fp_start,
                    (if fp_start + sample_ticks < fp_len {
                        (fp_start + sample_ticks) as usize
                    } else {
                        fp_len
                    }),
                ),
            )
        } else {
            None::<(usize, usize)>
        }),
{
    let end = if fp_start + sample_ticks < fp_len {
        fp_start + sample_ticks
    } else {
        fp_len
    };
    if fp_start >= fp_len {
        return None;
    }
    Some((fp_start, end))
}

/// The slice `[start, end)` of the reference's audio: from `audio_start` to `audio_end` cut at
/// the audio's end; none when that is empty.
pub fn sample_window(audio_start: usize, audio_end: usize, audio_len: usize) -> (r: Option<
    (usize, usize),
>)
    ensures
        ({
            let e = if audio_end < audio_len {
                audio_end
            } else {
                audio_len
            };
            r == (if audio_start < e {
                Some((audio_start, e))
            } else {
                None::<(usize, usize)>
            })
        }),
{
    let e = if audio_end < audio_len {
        audio_end
    } else {
        audio_len
    };
    if audio_start < e {
        Some((audio_start, e))
    } else {
        None
    }
}

/// The window of target samples searched by cross-correlation around a coarse match (see
/// [`fine_window_spec`]).
pub fn fine_window(coarse_index: usize, reference_audio_len: usize, target_audio_len: usize) -> (r:
    Option<(usize, usize)>)
    requires
        coarse_index * CHROMAPRINT_HOP_SAMPLES + reference_audio_len + FINE_MARGIN_SAMPLES
            <= usize::MAX,
    ensures
        match r {
            Some((s, e)) => fine_window_spec(
                coarse_index as nat,
                reference_audio_len as nat,
                target_audio_len as nat,
            ) == Some((s as int, e as int)),
            None => fine_window_spec(
                coarse_index as nat,
                reference_audio_len as nat,
                target_audio_len as nat,
            ) is None,
        },
{
    let coarse_sample = coarse_index * CHROMAPRINT_HOP_SAMPLES;
    let start = if coarse_sample >= FINE_MARGIN_SAMPLES {
        coarse_sample - FINE_MARGIN_SAMPLES
    } else {
        0
    };
    let reach = coarse_sample + reference_audio_len + FINE_MARGIN_SAMPLES;
    let end = if reach < target_audio_len {
        reach
    } else {
        target_audio_len
    };
    if start < end {
        Some((start, end))
    } else {
        None
    }
}

/// Where a segment was found in a target.
#[derive(Debug, Clone, Copy)]
pub struct SegmentMatch {
    /// The fingerprint index of the coarse match.
    pub coarse_index: usize,
    /// The start of the cross-correlation window and the lag found in it, when the fine match
    /// succeeded.
    pub fine: Option<(usize, isize)>,
}

/// The offset of a located segment in samples at 11025 Hz from the start of the searched
/// audio: the fine position when there is one, the coarse one otherwise.
pub open spec fn offset_spec(m: SegmentMatch) -> int {
    match m.fine {
        Some((start, lag)) => start + lag,
        None => m.coarse_index * CHROMAPRINT_HOP_SAMPLES,
    }
}

impl SegmentMatch {
    /// The offset of the segment in samples at 11025 Hz (see [`offset_spec`]).
    pub fn offset_samples(&self) -> (r: i128)
        ensures
            r == offset_spec(*self),
    {
        match self.fine {
            Some((start, lag)) => start as i128 + lag as i128,
            None => {
                let c = self.coarse_index;
                assert(0 <= c * 1365 <= 0x1_0000_0000_0000_0000 * 1365) by (nonlinear_arith)
                    requires
                        0 <= c <= 0x1_0000_0000_0000_0000int,
                ;
                c as i128 * CHROMAPRINT_HOP_SAMPLES as i128
            },
        }
    }
}

/// Combines a coarse match with what cross-correlation in the window starting at
/// `window_start` gave: a lag refines the match; no lag, or an error, leaves it coarse.
pub fn refine(coarse_index: usize, window_start: usize, fine: Result<Option<isize>, DomainError>) -> (r:
    SegmentMatch)
    ensures
        r.coarse_index == coarse_index,
        r.fine == (match fine {
            Ok(Some(lag)) => Some((window_start, lag)),
            _ => None::<(usize, isize)>,
        }),
{
    match fine {
        Ok(Some(lag)) => SegmentMatch { coarse_index, fine: Some((window_start, lag)) },
        _ => SegmentMatch { coarse_index, fine: None },
    }
}

/// The length of an optional sample slice (0 for none).
pub open spec fn opt_len(a: Option<&[i16]>) -> nat {
    match a {
        Some(s) => s@.len(),
        None => 0,
    }
}

/// The fine alignment of a located segment: with reference audio and a non-empty window
/// `[start, end)` of the target audio, the window's start and the lag for some outcome of the
/// fine matcher on the reference audio and that window (none when that outcome is no lag or an
/// error); without either, none.
pub open spec fn fine_outcome<F: FineMatcher>(
    fine: &F,
    reference_audio: Option<&[i16]>,
    target_audio: Seq<i16>,
    window: Option<(int, int)>,
    aligned: Option<(usize, isize)>,
) -> bool {
    match (reference_audio, window) {
        (Some(ra), Some((start, end))) => exists|o: Result<Option<isize>, DomainError>|
            #[trigger] fine.aligns(ra@, target_audio.subrange(start, end), o) && aligned == (
            match o {
                Ok(Some(lag)) => Some((start as usize, lag)),
                _ => None::<(usize, isize)>,
            }),
        _ => aligned is None,
    }
}

/// Locates the reference in a target's search space: the coarse match of the reference
/// fingerprint (threshold: a fifth of its bits), then, when reference audio is given and the
/// window around the match is not empty, the lag that the fine matcher finds in that window.
pub fn locate_segment<F: FineMatcher>(
    fine: &F,
    reference_fp: &[u32],
    target_fp: &[u32],
    reference_audio: Option<&[i16]>,
    target_audio: &[i16],
) -> (r: Option<SegmentMatch>)
    requires
        reference_fp@.len() <= MAX_REFERENCE_LEN,
        target_fp@.len() * CHROMAPRINT_HOP_SAMPLES + opt_len(reference_audio) + FINE_MARGIN_SAMPLES
            <= usize::MAX,
    ensures
        match r {
            None => match_spec(
                reference_fp@,
                target_fp@,
                threshold_spec(reference_fp@.len()) as u32,
                None,
            ),
            Some(m) => match_spec(
                reference_fp@,
                target_fp@,
                threshold_spec(reference_fp@.len()) as u32,
                Some(m.coarse_index),
            ) && fine_outcome(
                fine,
                reference_audio,
                target_audio@,
                fine_window_spec(
                    m.coarse_index as nat,
                    opt_len(reference_audio),
                    target_audio@.len(),
                ),
                m.fine,
            ),
        },
{
    let threshold = coarse_threshold(reference_fp.len());
    let matcher = SlidingWindowMatcher::new();
    let found = matcher.find_match(reference_fp, target_fp, threshold);
    assert(match_spec(reference_fp@, target_fp@, threshold, found));
    let idx = match found {
        Some(i) => i,
        None => return None,
    };
    proof {
        assert(idx <= target_fp@.len());
        assert(idx * CHROMAPRINT_HOP_SAMPLES <= target_fp@.len() * CHROMAPRINT_HOP_SAMPLES);
    }
    let r = match reference_audio {
        None => SegmentMatch { coarse_index: idx, fine: None },
        Some(ref_audio) => {
            match fine_window(idx, ref_audio.len(), target_audio.len()) {
                None => SegmentMatch { coarse_index: idx, fine: None },
                Some((start, end)) => {
                    let window = &target_audio[start..end];
                    let result = fine.find_fine_match(ref_audio, window);
                    let m = refine(idx, start, result);
                    assert(window@ == target_audio@.subrange(start as int, end as int));
                    assert(fine.aligns(ref_audio@, window@, result));
                    assert(fine_window_spec(
                        idx as nat,
                        opt_len(reference_audio),
                        target_audio@.len(),
                    ) == Some((start as int, end as int)));
                    m
                },
            }
        },
    };
    assert(match_spec(reference_fp@, target_fp@, threshold, Some(r.coarse_index)));
    Some(r)
}

} // verus!
