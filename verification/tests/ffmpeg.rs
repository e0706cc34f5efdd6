use anatro_rs::domain::DomainError;
use anatro_rs::infrastructure::chromaprint::{ChromaprintAdapter, ChromaprintStep};
use anatro_rs::infrastructure::cross_correlate_adapter::CrossCorrelationAdapter;
use anatro_rs::infrastructure::ffmpeg::FfmpegAdapter;

#[test]
fn ffmpeg_parse_range() {
    let a = FfmpegAdapter::new();
    assert_eq!(a.parse_range("00:01:00-00:02:30").unwrap(), ("00:01:00", "00:02:30"));
    match a.parse_range("00:01:00") {
        Err(DomainError::InputError(m)) => assert_eq!(m, "Range must be in 'HH:MM:SS-HH:MM:SS' format"),
        other => panic!("{:?}", other),
    }
    assert!(a.parse_range("a-b-c").is_err());
}

#[test]
fn ffmpeg_split_hms() {
    let a = FfmpegAdapter::new();
    let (h, m, s) = a.split_hms("01:02:03").unwrap();
    assert_eq!((h.as_str(), m.as_str(), s.as_str()), ("01", "02", "03"));
    match a.split_hms("02:03") {
        Err(DomainError::InputError(m)) => {
            assert_eq!(m, "Invalid timestamp format: 02:03. Expected HH:MM:SS")
        }
        other => panic!("{:?}", other),
    }
}

#[test]
fn ffmpeg_stream_plan() {
    let a = FfmpegAdapter::new();
    assert!(matches!(a.stream_plan(0), Err(DomainError::ExtractionError(_))));
    assert_eq!(a.stream_plan(1).unwrap(), Some(0));
    assert_eq!(a.stream_plan(2).unwrap(), None);
}

#[test]
fn ffmpeg_frame_copy_plan() {
    let a = FfmpegAdapter::new();
    // Frame ends before the target: skipped.
    assert!(a.plan_frame_copy(0, 90, 100, 0, 1024, 0, 5000).is_none());
    // Frame straddles the target: the first samples are dropped.
    let c = a.plan_frame_copy(90, 120, 100, 300, 1024, 0, 5000).unwrap();
    assert_eq!((c.offset, c.count), (300, 724));
    // Frame after the target, limited by what is still missing.
    let c = a.plan_frame_copy(200, 220, 100, 0, 1024, 4500, 5000).unwrap();
    assert_eq!((c.offset, c.count), (0, 500));
    // Skipping more than the frame holds copies nothing.
    let c = a.plan_frame_copy(90, 120, 100, 2000, 1024, 0, 5000).unwrap();
    assert_eq!((c.offset, c.count), (2000, 0));
}

#[test]
fn chromaprint_steps_and_raw_conversion() {
    let a = ChromaprintAdapter::new();
    assert!(a.check_step(ChromaprintStep::Feed, true).is_ok());
    match a.check_step(ChromaprintStep::Start, false) {
        Err(DomainError::FingerprintError(m)) => assert_eq!(m, "Failed to start chromaprint"),
        other => panic!("{:?}", other),
    }
    assert_eq!(a.fingerprint_from_raw(Some(vec![1, -1, i32::MIN])).unwrap(), vec![1, u32::MAX, 0x8000_0000]);
    match a.fingerprint_from_raw(None) {
        Err(DomainError::FingerprintError(m)) => assert_eq!(m, "Failed to get raw fingerprint"),
        other => panic!("{:?}", other),
    }
}

#[test]
fn cross_correlation_lag() {
    let a = CrossCorrelationAdapter::new();
    assert!(a.correlates(3, 10));
    assert!(!a.correlates(0, 10));
    assert!(!a.correlates(3, 0));
    assert_eq!(a.lag_from_peak(9, 3), 7);
    assert_eq!(a.lag_from_peak(0, 5), -4);
}

#[test]
fn errors_describe_themselves() {
    assert_eq!(
        DomainError::InputError("bad".to_string()).describe(),
        "User input error: bad"
    );
    assert_eq!(
        DomainError::ExtractionError("x".to_string()).describe(),
        "Audio extraction failed: x"
    );
    assert_eq!(
        DomainError::FingerprintError("y".to_string()).describe(),
        "Fingerprint generation failed: y"
    );
    assert_eq!(DomainError::MediaError("z".to_string()).describe(), "Media processing failed: z");
}
