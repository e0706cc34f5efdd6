//! Audio types for the domain layer.
use vstd::prelude::*;

verus! {

/// A buffer containing raw audio samples (typically i16 for Chromaprint).
#[derive(Debug, Clone)]
pub struct AudioBuffer {
    /// The actual audio samples.
    pub samples: Vec<i16>,
    /// The sample rate of the audio (e.g., 11025).
    pub sample_rate: u32,
    /// The number of channels (typically 1 for mono).
    pub channels: u16,
}

impl AudioBuffer {
    /// Creates a new AudioBuffer.
    pub fn new(samples: Vec<i16>, sample_rate: u32, channels: u16) -> (r: Self)
        ensures
            r.samples@ == samples@,
            r.sample_rate == sample_rate,
            r.channels == channels,
    {
        AudioBuffer { samples, sample_rate, channels }
    }

    /// Returns a reference to the samples.
    pub fn samples(&self) -> (r: &[i16])
        ensures
            r@ == self.samples@,
    {
        self.samples.as_slice()
    }
}


/// The little-endian bytes of a 16-bit value.
pub open spec fn le16(x: u16) -> Seq<u8> {
    seq![(x % 256) as u8, (x / 256) as u8]
}

/// The little-endian bytes of a 32-bit value.
pub open spec fn le32(x: u32) -> Seq<u8> {
    seq![
        (x % 256) as u8,
        ((x / 256) % 256) as u8,
        ((x / 65536) % 256) as u8,
        (x / 16777216) as u8,
    ]
}

/// The samples as 16-bit little-endian PCM bytes.
pub open spec fn pcm_bytes(samples: Seq<i16>) -> Seq<u8>
    decreases samples.len(),
{
    if samples.len() == 0 {
        Seq::<u8>::empty()
    } else {
        pcm_bytes(samples.drop_last()) + le16(samples.last() as u16)
    }
}

/// The size field of the data chunk: two bytes per sample, kept to 32 bits.
pub open spec fn wav_data_size(n: nat) -> u32 {
    ((n * 2) % 0x1_0000_0000) as u32
}

/// Buffers whose WAV header fields fit their widths: the RIFF size, the byte rate
/// (`sample_rate * channels * 2`) and the block alignment (`channels * 2`).
pub open spec fn wav_encodable(n: nat, sample_rate: u32, channels: u16) -> bool {
    &&& n * 2 <= usize::MAX
    &&& 36 + wav_data_size(n) <= u32::MAX
    &&& sample_rate * channels * 2 <= u32::MAX
    &&& channels * 2 <= u16::MAX
}

/// The canonical 44-byte RIFF/WAVE header of 16-bit PCM followed by the samples.
pub open spec fn wav_spec(samples: Seq<i16>, sample_rate: u32, channels: u16) -> Seq<u8> {
    let data_size = wav_data_size(samples.len());
    seq![0x52u8, 0x49u8, 0x46u8, 0x46u8] + le32((36 + data_size) as u32) + seq![
        0x57u8,
        0x41u8,
        0x56u8,
        0x45u8,
    ] + seq![0x66u8, 0x6du8, 0x74u8, 0x20u8] + le32(16) + le16(1) + le16(channels) + le32(
        sample_rate,
    ) + le32((sample_rate * channels * 2) as u32) + le16((channels * 2) as u16) + le16(16) + seq![
        0x64u8,
        0x61u8,
        0x74u8,
        0x61u8,
    ] + le32(data_size) + pcm_bytes(samples)
}

/// The 16-bit value stored little-endian at `b[i..i + 2]`.
pub open spec fn read_u16(b: Seq<u8>, i: int) -> int {
    b[i] + 256 * b[i + 1]
}

/// The 32-bit value stored little-endian at `b[i..i + 4]`.
pub open spec fn read_u32(b: Seq<u8>, i: int) -> int {
    b[i] + 256 * b[i + 1] + 65536 * b[i + 2] + 16777216 * b[i + 3]
}

proof fn lemma_le16_reads(x: u16)
    ensures
        le16(x).len() == 2,
        read_u16(le16(x), 0) == x,
{
    assert((x % 256) < 256 && x / 256 < 256);
}

proof fn lemma_le32_reads(x: u32)
    ensures
        le32(x).len() == 4,
        read_u32(le32(x), 0) == x,
{
    assert(x / 16777216 < 256);
    assert(((x / 256) % 256) < 256 && ((x / 65536) % 256) < 256 && x % 256 < 256);
    assert(x % 256 + 256 * ((x / 256) % 256) + 65536 * ((x / 65536) % 256) + 16777216 * (x
        / 16777216) == x) by (nonlinear_arith);
}

proof fn lemma_pcm_bytes_read(samples: Seq<i16>)
    ensures
        pcm_bytes(samples).len() == 2 * samples.len(),
        forall|i: int|
            0 <= i < samples.len() ==> #[trigger] read_u16(pcm_bytes(samples), 2 * i)
                == samples[i] as u16,
    decreases samples.len(),
{
    if samples.len() > 0 {
        let t = samples.drop_last();
        lemma_pcm_bytes_read(t);
        lemma_le16_reads(samples.last() as u16);
        let p = pcm_bytes(samples);
        assert forall|i: int| 0 <= i < samples.len() implies #[trigger] read_u16(p, 2 * i)
            == samples[i] as u16 by {
            if i < samples.len() - 1 {
                assert(p[2 * i] == pcm_bytes(t)[2 * i]);
                assert(p[2 * i + 1] == pcm_bytes(t)[2 * i + 1]);
                assert(read_u16(pcm_bytes(t), 2 * i) == t[i] as u16);
            } else {
                assert(p[2 * i] == le16(samples.last() as u16)[0]);
                assert(p[2 * i + 1] == le16(samples.last() as u16)[1]);
            }
        }
    }
}

/// The layout of a written WAV file, read back field by field: the `RIFF`, `WAVE`, `fmt ` and
/// `data` tags; a RIFF size of 36 bytes more than the data; a 16-byte PCM (format 1) header
/// with the buffer's channel count and sample rate, a byte rate of `rate * channels * 2`, a
/// block alignment of `channels * 2` and 16 bits per sample; a data size of two bytes per
/// sample (kept to 32 bits); and each sample, from byte 44 on, as its 16-bit two's complement.
pub proof fn law_wav_layout(samples: Seq<i16>, sample_rate: u32, channels: u16)
    requires
        wav_encodable(samples.len(), sample_rate, channels),
    ensures
        ({
            let b = wav_spec(samples, sample_rate, channels);
            let data = (2 * samples.len()) % 0x1_0000_0000;
            &&& b.len() == 44 + 2 * samples.len()
            &&& b.subrange(0, 4) == seq![0x52u8, 0x49u8, 0x46u8, 0x46u8]
            &&& read_u32(b, 4) == 36 + data
            &&& b.subrange(8, 12) == seq![0x57u8, 0x41u8, 0x56u8, 0x45u8]
            &&& b.subrange(12, 16) == seq![0x66u8, 0x6du8, 0x74u8, 0x20u8]
            &&& read_u32(b, 16) == 16
            &&& read_u16(b, 20) == 1
            &&& read_u16(b, 22) == channels
            &&& read_u32(b, 24) == sample_rate
            &&& read_u32(b, 28) == sample_rate * channels * 2
            &&& read_u16(b, 32) == channels * 2
            &&& read_u16(b, 34) == 16
            &&& b.subrange(36, 40) == seq![0x64u8, 0x61u8, 0x74u8, 0x61u8]
            &&& read_u32(b, 40) == data
            &&& forall|i: int|
                0 <= i < samples.len() ==> #[trigger] read_u16(b, 44 + 2 * i) == samples[i] as u16
        }),
{
    let data_size = wav_data_size(samples.len());
    let h0 = seq![0x52u8, 0x49u8, 0x46u8, 0x46u8];
    let h1 = le32((36 + data_size) as u32);
    let h2 = seq![0x57u8, 0x41u8, 0x56u8, 0x45u8];
    let h3 = seq![0x66u8, 0x6du8, 0x74u8, 0x20u8];
    let h4 = le32(16);
    let h5 = le16(1);
    let h6 = le16(channels);
    let h7 = le32(sample_rate);
    let h8 = le32((sample_rate * channels * 2) as u32);
    let h9 = le16((channels * 2) as u16);
    let h10 = le16(16);
    let h11 = seq![0x64u8, 0x61u8, 0x74u8, 0x61u8];
    let h12 = le32(data_size);
    let pcm = pcm_bytes(samples);
    let b = wav_spec(samples, sample_rate, channels);
    lemma_le32_reads((36 + data_size) as u32);
    lemma_le32_reads(16);
    lemma_le16_reads(1);
    lemma_le16_reads(channels);
    lemma_le32_reads(sample_rate);
    lemma_le32_reads((sample_rate * channels * 2) as u32);
    lemma_le16_reads((channels * 2) as u16);
    lemma_le16_reads(16);
    lemma_le32_reads(data_size);
    lemma_pcm_bytes_read(samples);
    let header = h0 + h1 + h2 + h3 + h4 + h5 + h6 + h7 + h8 + h9 + h10 + h11 + h12;
    assert(b == header + pcm);
    assert(header.len() == 44);
    assert(header =~= seq![
        h0[0], h0[1], h0[2], h0[3], h1[0], h1[1], h1[2], h1[3],
        h2[0], h2[1], h2[2], h2[3], h3[0], h3[1], h3[2], h3[3],
        h4[0], h4[1], h4[2], h4[3], h5[0], h5[1], h6[0], h6[1],
        h7[0], h7[1], h7[2], h7[3], h8[0], h8[1], h8[2], h8[3],
        h9[0], h9[1], h10[0], h10[1], h11[0], h11[1], h11[2], h11[3],
        h12[0], h12[1], h12[2], h12[3],
    ]);
    assert forall|k: int| 0 <= k < 44 implies b[k] == header[k] by {}
    assert(b.subrange(0, 4) =~= h0);
    assert(b.subrange(8, 12) =~= h2);
    assert(b.subrange(12, 16) =~= h3);
    assert(b.subrange(36, 40) =~= h11);
    assert(read_u32(b, 4) == read_u32(h1, 0));
    assert(read_u32(b, 16) == read_u32(h4, 0));
    assert(read_u16(b, 20) == read_u16(h5, 0));
    assert(read_u16(b, 22) == read_u16(h6, 0));
    assert(read_u32(b, 24) == read_u32(h7, 0));
    assert(read_u32(b, 28) == read_u32(h8, 0));
    assert(read_u16(b, 32) == read_u16(h9, 0));
    assert(read_u16(b, 34) == read_u16(h10, 0));
    assert(read_u32(b, 40) == read_u32(h12, 0));
    assert forall|i: int| 0 <= i < samples.len() implies #[trigger] read_u16(b, 44 + 2 * i)
        == samples[i] as u16 by {
        assert(b[44 + 2 * i] == pcm[2 * i]);
        assert(b[44 + 2 * i + 1] == pcm[2 * i + 1]);
        assert(read_u16(pcm, 2 * i) == samples[i] as u16);
    }
}

fn push_le16(v: &mut Vec<u8>, x: u16)
    ensures
        final(v)@ == old(v)@ + le16(x),
{
    v.push((x % 256) as u8);
    v.push((x / 256) as u8);
}

fn push_le32(v: &mut Vec<u8>, x: u32)
    ensures
        final(v)@ == old(v)@ + le32(x),
{
    v.push((x % 256) as u8);
    v.push(((x / 256) % 256) as u8);
    v.push(((x / 65536) % 256) as u8);
    v.push((x / 16777216) as u8);
}

fn push_tag(v: &mut Vec<u8>, a: u8, b: u8, c: u8, d: u8)
    ensures
        final(v)@ == old(v)@ + seq![a, b, c, d],
{
    v.push(a);
    v.push(b);
    v.push(c);
    v.push(d);
}

/// The bytes of a WAV file holding the buffer as 16-bit PCM.
pub fn encode_wav(buffer: &AudioBuffer) -> (r: Vec<u8>)
    requires
        wav_encodable(buffer.samples@.len(), buffer.sample_rate, buffer.channels),
    ensures
        r@ == wav_spec(buffer.samples@, buffer.sample_rate, buffer.channels),
        r@.len() == 44 + 2 * buffer.samples@.len(),
{
    let channels = buffer.channels;
    let sample_rate = buffer.sample_rate;
    let bits_per_sample: u16 = 16;
    let n = buffer.samples.len();
    let doubled: u64 = (n as u64) * 2;
    let data_size = (doubled % 0x1_0000_0000) as u32;
    let file_size = 36 + data_size;
    let byte_rate = sample_rate * channels as u32 * 2;
    let block_align = channels * 2;
    let mut out: Vec<u8> = Vec::new();
    push_tag(&mut out, 0x52, 0x49, 0x46, 0x46);
    push_le32(&mut out, file_size);
    push_tag(&mut out, 0x57, 0x41, 0x56, 0x45);
    push_tag(&mut out, 0x66, 0x6d, 0x74, 0x20);
    push_le32(&mut out, 16);
    push_le16(&mut out, 1);
    push_le16(&mut out, channels);
    push_le32(&mut out, sample_rate);
    push_le32(&mut out, byte_rate);
    push_le16(&mut out, block_align);
    push_le16(&mut out, bits_per_sample);
    push_tag(&mut out, 0x64, 0x61, 0x74, 0x61);
    push_le32(&mut out, data_size);
    let ghost header = out@;
    assert(header.len() == 44);
    assert(header + pcm_bytes(buffer.samples@.take(0)) =~= header) by {
        assert(buffer.samples@.take(0) =~= Seq::<i16>::empty());
    }
    let mut i: usize = 0;
    while i < n
        invariant
            n == buffer.samples@.len(),
            i <= n,
            out@ == header + pcm_bytes(buffer.samples@.take(i as int)),
            pcm_bytes(buffer.samples@.take(i as int)).len() == 2 * i,
        decreases n - i,
    {
        let sample = buffer.samples[i];
        push_le16(&mut out, sample as u16);
        assert(buffer.samples@.take(i + 1).drop_last() =~= buffer.samples@.take(i as int));
        i = i + 1;
    }
    assert(buffer.samples@.take(n as int) =~= buffer.samples@);
    assert(out@ =~= wav_spec(buffer.samples@, buffer.sample_rate, buffer.channels));
    out
}

} // verus!
