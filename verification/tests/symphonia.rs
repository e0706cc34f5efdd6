use anatro_rs::domain::DomainError;
use anatro_rs::infrastructure::symphonia_adapter::{
    PacketAction, PtsWindow, SampleRange, SymphoniaAdapter, TimestampFields, TrackDecision,
    TrackInfo,
};

fn input_message(e: DomainError) -> String {
    match e {
        DomainError::InputError(m) => m,
        other => panic!("expected an input error, got {:?}", other),
    }
}

#[test]
fn timestamps_split_into_fields() {
    let a = SymphoniaAdapter::new();
    match a.split_timestamp("01:02:03.5").unwrap() {
        TimestampFields::HoursMinutesSeconds(h, m, s) => {
            assert_eq!((h.as_str(), m.as_str(), s.as_str()), ("01", "02", "03.5"))
        }
        other => panic!("{:?}", other),
    }
    match a.split_timestamp("12:30").unwrap() {
        TimestampFields::MinutesSeconds(m, s) => assert_eq!((m.as_str(), s.as_str()), ("12", "30")),
        other => panic!("{:?}", other),
    }
    match a.split_timestamp("95.25").unwrap() {
        TimestampFields::Seconds(s) => assert_eq!(s, "95.25"),
        other => panic!("{:?}", other),
    }
    let e = a.split_timestamp("1:2:3:4").unwrap_err();
    assert_eq!(
        input_message(e),
        "Invalid timestamp format: 1:2:3:4. Expected HH:MM:SS, MM:SS or seconds as float."
    );
}

#[test]
fn sample_ranges() {
    let a = SymphoniaAdapter::new();
    match a.parse_sample_range("00:01:00-00:02:00").unwrap() {
        SampleRange::Absolute { start, end } => assert_eq!((start.as_str(), end.as_str()), ("00:01:00", "00:02:00")),
        other => panic!("{:?}", other),
    }
    match a.parse_sample_range("0.1,0.25").unwrap() {
        SampleRange::Relative { start, end } => assert_eq!((start.as_str(), end.as_str()), ("0.1", "0.25")),
        other => panic!("{:?}", other),
    }
    assert_eq!(
        input_message(a.parse_sample_range("1-2-3").unwrap_err()),
        "Range must be in 'HH:MM:SS-HH:MM:SS' format"
    );
    assert_eq!(
        input_message(a.parse_sample_range("1,2,3").unwrap_err()),
        "Relative range must be 'start,end' floats"
    );
    assert_eq!(input_message(a.parse_sample_range("00:01:00").unwrap_err()), "Range format not recognized");
}

fn track(id: u32, null: bool, ch: bool, rate: bool) -> TrackInfo {
    TrackInfo { id, codec_is_null: null, has_channels: ch, has_sample_rate: rate }
}

#[test]
fn audio_tracks_are_filtered_in_order() {
    let a = SymphoniaAdapter::new();
    let tracks = vec![
        track(1, true, true, true),
        track(2, false, true, false),
        track(3, false, false, false),
        track(4, false, false, true),
    ];
    assert_eq!(a.audio_track_ids(&tracks), vec![2, 4]);
}

#[test]
fn track_decisions() {
    let a = SymphoniaAdapter::new();
    let ids = vec![2, 4];
    assert!(matches!(a.decide_track(&ids, Some(1)), Ok(TrackDecision::Chosen(4))));
    assert!(matches!(a.decide_track(&ids, None), Ok(TrackDecision::Prompt)));
    assert_eq!(
        input_message(a.decide_track(&ids, Some(7)).unwrap_err()),
        "Track index 7 is out of bounds. Found 2 audio tracks."
    );
    match a.decide_track(&vec![], Some(0)) {
        Err(DomainError::ExtractionError(m)) => assert_eq!(m, "No audio tracks found"),
        other => panic!("{:?}", other),
    }
    assert_eq!(a.pick_track(&ids, 0).unwrap(), 2);
    assert_eq!(
        input_message(a.pick_track(&ids, 12).unwrap_err()),
        "Track index 12 is out of bounds. Found 2 audio tracks."
    );
}

#[test]
fn prompt_plan_counts() {
    let a = SymphoniaAdapter::new();
    assert!(matches!(a.prompt_plan(0), Err(DomainError::ExtractionError(_))));
    assert_eq!(a.prompt_plan(1).unwrap(), Some(0));
    assert_eq!(a.prompt_plan(3).unwrap(), None);
}

#[test]
fn packet_actions() {
    let a = SymphoniaAdapter::new();
    let w = PtsWindow { start_pts: 100, end_pts: 200 };
    assert_eq!(a.pcm_packet_action(w, 10, 50), PacketAction::Skip);
    assert_eq!(a.pcm_packet_action(w, 90, 20), PacketAction::Decode);
    assert_eq!(a.pcm_packet_action(w, 200, 20), PacketAction::Stop);
    assert_eq!(a.range_packet_action(w, 10), PacketAction::Decode);
    assert_eq!(a.range_packet_action(w, 250), PacketAction::Stop);
}

#[test]
fn kept_frames_by_timestamp() {
    let a = SymphoniaAdapter::new();
    let w = PtsWindow { start_pts: 100, end_pts: 200 };
    assert_eq!(a.kept_frames(w, 90, 20), (10, 20));
    assert_eq!(a.kept_frames(w, 190, 20), (0, 10));
    assert_eq!(a.kept_frames(w, 120, 20), (0, 20));
    assert_eq!(a.kept_frames(w, 300, 20), (0, 0));
    assert_eq!(a.kept_frames(w, 0, 20), (20, 20));
}

#[test]
fn pcm_frames_in_range_are_copied() {
    let a = SymphoniaAdapter::new();
    let w = PtsWindow { start_pts: 11, end_pts: 13 };
    // Stereo frames at timestamps 10, 11, 12, 13.
    let samples = [1, 2, 3, 4, 5, 6, 7, 8];
    let mut out = vec![99];
    a.take_pcm_frames(w, &samples, 2, 10, &mut out);
    assert_eq!(out, vec![99, 3, 4, 5, 6]);
    // A short last frame is copied as it is.
    let mut out2 = Vec::new();
    a.take_pcm_frames(PtsWindow { start_pts: 0, end_pts: 100 }, &[1, 2, 3, 4, 5], 2, 0, &mut out2);
    assert_eq!(out2, vec![1, 2, 3, 4, 5]);
    let mut out3 = Vec::new();
    a.take_pcm_frames(PtsWindow { start_pts: 50, end_pts: 60 }, &[1, 2, 3], 1, 0, &mut out3);
    assert!(out3.is_empty());
}
