use anatro_rs::domain::audio::AudioBuffer;
use anatro_rs::domain::matcher::SlidingWindowMatcher;
use anatro_rs::domain::pipeline::SourceMedia;
use anatro_rs::domain::traits::{Fingerprinter, TrackSelector};
use anatro_rs::domain::DomainError;

struct Selector;

impl TrackSelector for Selector {
    fn prompt_track_index(&self, _path: &str) -> Result<usize, DomainError> {
        Ok(0)
    }
    fn select_track(&self, path: &str, track_index: Option<usize>) -> Result<u32, DomainError> {
        if path.ends_with(".mkv") {
            Ok(10 + track_index.unwrap_or(0) as u32)
        } else {
            Err(DomainError::MediaError("unsupported".to_string()))
        }
    }
}

struct SumPrint;

impl Fingerprinter for SumPrint {
    fn generate_fingerprint(&self, buffer: &AudioBuffer) -> Result<Vec<u32>, DomainError> {
        if buffer.samples.is_empty() {
            return Err(DomainError::FingerprintError("empty".to_string()));
        }
        Ok(buffer.samples.iter().map(|s| *s as u32).collect())
    }
}

#[test]
fn typestate_walk() {
    let src = SourceMedia::new("ep1.mkv".to_string());
    let selected = src.select_track(&Selector, Some(2)).unwrap();
    assert_eq!(selected.path(), "ep1.mkv");
    assert_eq!(selected.track_id(), 12);
    let audio = selected.into_extracted(AudioBuffer::new(vec![3, 4, 5, 6], 11025, 1));
    assert_eq!(audio.buffer().samples(), &[3, 4, 5, 6]);
    let printed = audio.generate_fingerprint(&SumPrint).unwrap();
    assert_eq!(printed.fingerprint(), &[3, 4, 5, 6]);
    assert_eq!(printed.path(), "ep1.mkv");
    let m = printed.find_match(&SlidingWindowMatcher::new(), &[5, 6], 0).unwrap();
    assert_eq!(m.path, "ep1.mkv");
    assert_eq!(m.match_index, Some(2));
}

#[test]
fn typestate_errors_pass_through() {
    let src = SourceMedia::new("ep1.avi".to_string());
    assert!(matches!(src.select_track(&Selector, None), Err(DomainError::MediaError(_))));
    let selected = SourceMedia::new("ep2.mkv".to_string()).select_track(&Selector, None).unwrap();
    let seg = selected.into_segmented(
        AudioBuffer::new(vec![1, 2], 11025, 1),
        AudioBuffer::new(vec![], 11025, 1),
    );
    assert!(matches!(seg.generate_segmented_fingerprints(&SumPrint), Err(DomainError::FingerprintError(_))));
}

#[test]
fn segmented_fingerprints() {
    let selected = SourceMedia::new("ep3.mkv".to_string()).select_track(&Selector, None).unwrap();
    let seg = selected.into_segmented(
        AudioBuffer::new(vec![1, 2], 11025, 1),
        AudioBuffer::new(vec![7], 11025, 1),
    );
    let fps = seg.generate_segmented_fingerprints(&SumPrint).unwrap();
    assert_eq!(fps.intro_fingerprint(), &[1, 2]);
    assert_eq!(fps.outro_fingerprint(), &[7]);
    assert_eq!(fps.path(), "ep3.mkv");
    let direct = SourceMedia::new("x.mkv".to_string()).with_track(Err(DomainError::InputError("no".to_string())));
    assert!(direct.is_err());
}
