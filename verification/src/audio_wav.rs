use vstd::prelude::*;

use crate::audio::AudioError;

verus! {

/// The two bytes of `v`, least significant first.
pub open spec fn le16(v: int) -> Seq<u8> {
    seq![(v % 256) as u8, ((v / 256) % 256) as u8]
}

/// The four bytes of `v`, least significant first.
pub open spec fn le32(v: int) -> Seq<u8> {
    seq![
        (v % 256) as u8,
        ((v / 256) % 256) as u8,
        ((v / 65536) % 256) as u8,
        ((v / 16777216) % 256) as u8,
    ]
}

/// The 44-byte header of a mono 16-bit PCM WAV file whose sample data is `data_len` bytes.
pub open spec fn wav_header(sample_rate: int, data_len: int) -> Seq<u8> {
    seq![0x52u8, 0x49, 0x46, 0x46] + le32(36 + data_len) + seq![
        0x57u8,
        0x41,
        0x56,
        0x45,
        0x66,
        0x6d,
        0x74,
        0x20,
    ] + le32(16) + le16(1) + le16(1) + le32(sample_rate) + le32(sample_rate * 2) + le16(2)
        + le16(16) + seq![0x64u8, 0x61, 0x74, 0x61] + le32(data_len)
}

/// The samples as little-endian two's-complement 16-bit values.
pub open spec fn pcm16_data(samples: Seq<i16>) -> Seq<u8> {
    Seq::new(
        (samples.len() * 2) as nat,
        |i: int|
            if i % 2 == 0 {
                ((samples[i / 2] as u16) % 256) as u8
            } else {
                ((samples[i / 2] as u16) / 256) as u8
            },
    )
}

/// The error `pcm16_mono_wav` reports for these inputs, if any.
pub open spec fn pcm16_wav_error(sample_rate: int, sample_count: int) -> Option<Seq<char>> {
    if sample_rate != 44100 && sample_rate != 48000 {
        Some("only 44100 Hz and 48000 Hz PCM WAV sounds are supported"@)
    } else if sample_count == 0 {
        Some("PCM sound contains no samples"@)
    } else if sample_count > u32::MAX / 2 {
        Some("PCM sound is too large to encode as WAV"@)
    } else {
        None
    }
}

fn push_le16(bytes: &mut Vec<u8>, v: u16)
    ensures
        final(bytes)@ == old(bytes)@ + le16(v as int),
{
    bytes.push((v % 256) as u8);
    bytes.push((v / 256) as u8);
    assert(final(bytes)@ =~= old(bytes)@ + le16(v as int));
}

fn push_le32(bytes: &mut Vec<u8>, v: u32)
    ensures
        final(bytes)@ == old(bytes)@ + le32(v as int),
{
    bytes.push((v % 256) as u8);
    bytes.push(((v / 256) % 256) as u8);
    bytes.push(((v / 65536) % 256) as u8);
    bytes.push((v / 16777216) as u8);
    assert(final(bytes)@ =~= old(bytes)@ + le32(v as int));
}

fn push_tag(bytes: &mut Vec<u8>, a: u8, b: u8, c: u8, d: u8)
    ensures
        final(bytes)@ == old(bytes)@ + seq![a, b, c, d],
{
    bytes.push(a);
    bytes.push(b);
    bytes.push(c);
    bytes.push(d);
    assert(final(bytes)@ =~= old(bytes)@ + seq![a, b, c, d]);
}

/// Encodes mono signed 16-bit PCM samples as a WAV asset supported by GPE audio backends.
pub fn pcm16_mono_wav(sample_rate: u32, samples: &[i16]) -> (wav: Result<Vec<u8>, AudioError>)
    requires
        samples@.len() * 2 + 36 <= u32::MAX || samples@.len() > u32::MAX / 2,
    ensures
        wav is Ok <==> pcm16_wav_error(sample_rate as int, samples@.len() as int) is None,
        wav matches Ok(bytes) ==> bytes@ == wav_header(sample_rate as int, (samples@.len() * 2) as int)
            + pcm16_data(samples@),
        wav matches Err(e) ==> pcm16_wav_error(sample_rate as int, samples@.len() as int) == Some(
            e@,
        ),
{
    if sample_rate != 44_100 && sample_rate != 48_000 {
        return Err(AudioError::new("only 44100 Hz and 48000 Hz PCM WAV sounds are supported"));
    }
    if samples.len() == 0 {
        return Err(AudioError::new("PCM sound contains no samples"));
    }
    if samples.len() > (u32::MAX / 2) as usize {
        return Err(AudioError::new("PCM sound is too large to encode as WAV"));
    }
    let data_len = (samples.len() * 2) as u32;
    let byte_rate = sample_rate * 2;
    let mut wav: Vec<u8> = Vec::new();
    push_tag(&mut wav, 0x52, 0x49, 0x46, 0x46);
    push_le32(&mut wav, 36 + data_len);
    push_tag(&mut wav, 0x57, 0x41, 0x56, 0x45);
    push_tag(&mut wav, 0x66, 0x6d, 0x74, 0x20);
    push_le32(&mut wav, 16);
    push_le16(&mut wav, 1);
    push_le16(&mut wav, 1);
    push_le32(&mut wav, sample_rate);
    push_le32(&mut wav, byte_rate);
    push_le16(&mut wav, 2);
    push_le16(&mut wav, 16);
    push_tag(&mut wav, 0x64, 0x61, 0x74, 0x61);
    push_le32(&mut wav, data_len);
    let ghost header = wav_header(sample_rate as int, (samples@.len() * 2) as int);
    assert(wav@ =~= header);
    let mut i: usize = 0;
    while i < samples.len()
        invariant
            i <= samples@.len(),
            header.len() == 44,
            wav@ == header + pcm16_data(samples@.take(i as int)),
        decreases samples@.len() - i,
    {
        let ghost before = wav@;
        push_le16(&mut wav, #[verifier::truncate] (samples[i] as u16));
        assert(pcm16_data(samples@.take(i + 1)) =~= pcm16_data(samples@.take(i as int)) + le16(
            samples@[i as int] as u16 as int,
        ));
        i = i + 1;
    }
    assert(samples@.take(samples@.len() as int) =~= samples@);
    Ok(wav)
}

} // verus!
