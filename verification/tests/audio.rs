use anatro_rs::domain::audio::{encode_wav, AudioBuffer};
use anatro_rs::infrastructure::ffmpeg::FfmpegAdapter;
use anatro_rs::infrastructure::symphonia_adapter::SymphoniaAdapter;

#[test]
fn audio_buffer_holds_its_samples() {
    let b = AudioBuffer::new(vec![1, -2, 3], 11025, 1);
    assert_eq!(b.samples(), &[1, -2, 3]);
    assert_eq!(b.sample_rate, 11025);
    assert_eq!(b.channels, 1);
}

#[test]
fn wav_header_and_data() {
    let b = AudioBuffer::new(vec![1, -2, 0x1234], 11025, 1);
    let w = encode_wav(&b);
    assert_eq!(w.len(), 44 + 6);
    assert_eq!(&w[0..4], b"RIFF");
    assert_eq!(u32::from_le_bytes([w[4], w[5], w[6], w[7]]), 36 + 6);
    assert_eq!(&w[8..12], b"WAVE");
    assert_eq!(&w[12..16], b"fmt ");
    assert_eq!(u32::from_le_bytes([w[16], w[17], w[18], w[19]]), 16);
    assert_eq!(u16::from_le_bytes([w[20], w[21]]), 1);
    assert_eq!(u16::from_le_bytes([w[22], w[23]]), 1);
    assert_eq!(u32::from_le_bytes([w[24], w[25], w[26], w[27]]), 11025);
    assert_eq!(u32::from_le_bytes([w[28], w[29], w[30], w[31]]), 22050);
    assert_eq!(u16::from_le_bytes([w[32], w[33]]), 2);
    assert_eq!(u16::from_le_bytes([w[34], w[35]]), 16);
    assert_eq!(&w[36..40], b"data");
    assert_eq!(u32::from_le_bytes([w[40], w[41], w[42], w[43]]), 6);
    assert_eq!(&w[44..], &[0x01, 0x00, 0xfe, 0xff, 0x34, 0x12]);
}

#[test]
fn wav_stereo_rates() {
    let b = AudioBuffer::new(vec![0; 4], 48000, 2);
    let w = SymphoniaAdapter::new().wav_bytes(&b);
    assert_eq!(u32::from_le_bytes([w[28], w[29], w[30], w[31]]), 192000);
    assert_eq!(u16::from_le_bytes([w[32], w[33]]), 4);
    assert_eq!(w, FfmpegAdapter::new().wav_bytes(&b));
    let empty = encode_wav(&AudioBuffer::new(vec![], 8000, 1));
    assert_eq!(empty.len(), 44);
    assert_eq!(u32::from_le_bytes([empty[4], empty[5], empty[6], empty[7]]), 36);
}
