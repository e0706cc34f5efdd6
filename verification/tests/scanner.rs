use anatro_rs::domain::scanner::{
    coarse_threshold, fine_window, is_media_extension, needs_scan, writes_cache, locate_segment, reference_window, refine, resolve_reference,
    sample_window, SegmentMatch, FINE_MARGIN_SAMPLES,
};
use anatro_rs::domain::traits::FineMatcher;
use anatro_rs::domain::DomainError;

struct FixedLag(Result<Option<isize>, DomainError>);

impl FineMatcher for FixedLag {
    fn find_fine_match(&self, _r: &[i16], _t: &[i16]) -> Result<Option<isize>, DomainError> {
        self.0.clone()
    }
}

#[test]
fn reference_resolution() {
    let paths = vec!["/d/a.mkv".to_string(), "/d/b.mkv".to_string(), "/e/b.mkv".to_string()];
    let names = vec!["a.mkv".to_string(), "b.mkv".to_string(), "b.mkv".to_string()];
    assert_eq!(resolve_reference(&paths, &names, "b.mkv", '/').unwrap(), "/d/b.mkv");
    assert_eq!(resolve_reference(&paths, &names, "/x/ref.mkv", '/').unwrap(), "/x/ref.mkv");
    assert_eq!(resolve_reference(&paths, &names, "d\\ref.mkv", '\\').unwrap(), "d\\ref.mkv");
    match resolve_reference(&paths, &names, "c.mkv", '/') {
        Err(DomainError::Message(m)) => {
            assert_eq!(m, "Reference file 'c.mkv' not found in processed files.")
        }
        other => panic!("{:?}", other),
    }
}

#[test]
fn reference_not_found_text_is_the_message() {
    let e = resolve_reference(&vec![], &vec![], "ep01.mkv", '/').unwrap_err();
    assert_eq!(e.describe(), "Reference file 'ep01.mkv' not found in processed files.");
}

#[test]
fn thresholds_and_windows() {
    assert_eq!(coarse_threshold(81), 518);
    assert_eq!(coarse_threshold(0), 0);
    assert_eq!(reference_window(100, 10, 81), Some((10, 91)));
    assert_eq!(reference_window(100, 50, 81), Some((50, 100)));
    assert_eq!(reference_window(100, 100, 5), None);
    assert_eq!(sample_window(10, 50, 40), Some((10, 40)));
    assert_eq!(sample_window(40, 50, 40), None);
}

#[test]
fn fine_window_around_coarse_match() {
    assert_eq!(FINE_MARGIN_SAMPLES, 5 * 11025);
    // Coarse match at index 100: sample 136500.
    assert_eq!(fine_window(100, 110250, 1_000_000), Some((136500 - 55125, 136500 + 110250 + 55125)));
    // Near the start the window begins at 0.
    assert_eq!(fine_window(10, 1000, 1_000_000), Some((0, 13650 + 1000 + 55125)));
    // Near the end it stops at the target's end.
    assert_eq!(fine_window(100, 110250, 150000), Some((81375, 150000)));
    // Empty window.
    assert_eq!(fine_window(100, 0, 1000), None);
}

#[test]
fn refine_and_offsets() {
    let m = refine(4, 1000, Ok(Some(-25)));
    assert_eq!(m.fine, Some((1000, -25)));
    assert_eq!(m.offset_samples(), 975);
    let c = refine(4, 1000, Ok(None));
    assert_eq!(c.fine, None);
    assert_eq!(c.offset_samples(), 4 * 1365);
    let e = refine(4, 1000, Err(DomainError::ExtractionError("x".to_string())));
    assert_eq!(e.fine, None);
    let s = SegmentMatch { coarse_index: 0, fine: None };
    assert_eq!(s.offset_samples(), 0);
}

#[test]
fn locate_segment_coarse_then_fine() {
    let target_fp: Vec<u32> = (0..200u32).map(|i| i.wrapping_mul(2654435761)).collect();
    let reference_fp = target_fp[60..80].to_vec();
    let target_audio = vec![0i16; 200 * 1365];
    let reference_audio = vec![0i16; 1000];
    let fine = FixedLag(Ok(Some(55125)));
    let m = locate_segment(&fine, &reference_fp, &target_fp, Some(&reference_audio), &target_audio).unwrap();
    assert_eq!(m.coarse_index, 60);
    assert_eq!(m.fine, Some((60 * 1365 - 55125, 55125)));
    assert_eq!(m.offset_samples(), 60 * 1365);
    // Without reference audio the match stays coarse.
    let m = locate_segment(&fine, &reference_fp, &target_fp, None, &target_audio).unwrap();
    assert_eq!(m.fine, None);
    // A failing fine matcher leaves the coarse match.
    let failing = FixedLag(Err(DomainError::ExtractionError("boom".to_string())));
    let m = locate_segment(&failing, &reference_fp, &target_fp, Some(&reference_audio), &target_audio).unwrap();
    assert_eq!((m.coarse_index, m.fine), (60, None));
    // Nothing similar: no match.
    let other: Vec<u32> = (0..20u32).map(|i| !(i.wrapping_mul(2654435761))).collect();
    let unrelated: Vec<u32> = vec![0; 200];
    assert!(locate_segment(&fine, &other, &unrelated, None, &target_audio).is_none());
}

#[test]
fn media_extensions_like_lowercase_compare() {
    for ext in ["mkv", "MKV", "Mp4", "mp4", "mkv ", "avi", "", "m\u{212A}v", "mkvv", "MP3", "4pm"] {
        let lower = ext.to_lowercase();
        assert_eq!(is_media_extension(ext), lower == "mkv" || lower == "mp4", "{:?}", ext);
    }
}

#[test]
fn cache_policy() {
    assert!(needs_scan(true, true));
    assert!(needs_scan(false, false));
    assert!(!needs_scan(false, true));
    assert!(writes_cache(false));
    assert!(!writes_cache(true));
}
