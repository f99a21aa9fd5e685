use vstd::prelude::*;

use crate::audio::AudioError;

verus! {

/// The format fields of a WAV header.
#[derive(Debug, Clone, Copy, PartialEq, Eq, Structural)]
pub struct WavFormat {
    /// Whether samples are integers (PCM) rather than floats.
    pub integer_samples: bool,
    pub bits_per_sample: u16,
    pub channels: u16,
    pub sample_rate: u32,
}

/// What the WAV reader makes of a file: its format and either its interleaved
/// 16-bit samples or why they could not be read; or why the header was refused.
pub type WavContents = Result<(WavFormat, Result<Vec<i16>, String>), String>;

/// Abstract form of `WavContents`.
pub open spec fn wav_contents_view(contents: WavContents) -> Result<(WavFormat, Result<Seq<i16>, Seq<char>>), Seq<char>> {
    match contents {
        Ok((format, Ok(samples))) => Ok((format, Ok(samples@))),
        Ok((format, Err(reason))) => Ok((format, Err(reason@))),
        Err(reason) => Err(reason@),
    }
}

/// What `hound` reads from the bytes of a WAV file (see `read_wav`).
pub uninterp spec fn wav_contents(bytes: Seq<u8>) -> Result<(WavFormat, Result<Seq<i16>, Seq<char>>), Seq<char>>;

/// Opens `bytes` with `hound::WavReader::new`, takes the header's format from
/// `WavReader::spec`, and collects `WavReader::samples::<i16>` up to the first
/// sample error; errors are handed over as their display text. The result is named,
/// as a function of the bytes alone: nothing is claimed of which files open or of
/// what samples they hold.
#[verifier::external_body]
fn read_wav(bytes: &[u8]) -> (contents: WavContents)
    ensures
        wav_contents_view(contents) == wav_contents(bytes@),
{
    let mut reader = hound::WavReader::new(std::io::Cursor::new(bytes)).map_err(|error| error.to_string())?;
    let spec = reader.spec();
    let format = WavFormat {
        integer_samples: matches!(spec.sample_format, hound::SampleFormat::Int),
        bits_per_sample: spec.bits_per_sample,
        channels: spec.channels,
        sample_rate: spec.sample_rate,
    };
    let samples = reader.samples::<i16>().map(|sample| sample.map_err(|error| error.to_string())).collect();
    Ok((format, samples))
}

/// A decoded 16-bit PCM sound: interleaved samples of one or two channels.
#[derive(Debug)]
pub struct PcmSound {
    pub channels: u16,
    pub sample_rate: u32,
    pub samples: Vec<i16>,
}

/// Abstract form of a decoded sound.
pub struct PcmSoundView {
    pub channels: u16,
    pub sample_rate: u32,
    pub samples: Seq<i16>,
}

impl View for PcmSound {
    type V = PcmSoundView;

    open spec fn view(&self) -> PcmSoundView {
        PcmSoundView { channels: self.channels, sample_rate: self.sample_rate, samples: self.samples@ }
    }
}

/// The sound, or the message of the error, that the WAV reader's result gives: only
/// 16-bit integer PCM of one or two channels at 44100 Hz or 48000 Hz, with at least
/// one sample and whole frames, is accepted.
pub open spec fn decoded_wav(contents: Result<(WavFormat, Result<Seq<i16>, Seq<char>>), Seq<char>>) -> Result<
    PcmSoundView,
    Seq<char>,
> {
    match contents {
        Err(reason) => Err("failed to read WAV: "@ + reason),
        Ok((format, samples)) => if !format.integer_samples || format.bits_per_sample != 16 {
            Err("only 16-bit PCM WAV sounds are supported"@)
        } else if format.channels != 1 && format.channels != 2 {
            Err("only mono and stereo WAV sounds are supported"@)
        } else if format.sample_rate != 44_100 && format.sample_rate != 48_000 {
            Err("only 44100 Hz and 48000 Hz WAV sounds are supported"@)
        } else {
            match samples {
                Err(reason) => Err("failed to decode WAV sample: "@ + reason),
                Ok(samples) => if samples.len() == 0 {
                    Err("WAV contains no samples"@)
                } else if samples.len() % (format.channels as nat) != 0 {
                    Err("WAV sample count is not aligned to its channel count"@)
                } else {
                    Ok(PcmSoundView { channels: format.channels, sample_rate: format.sample_rate, samples })
                },
            }
        },
    }
}

/// Abstract form of a decoding result.
pub open spec fn decode_result_view(result: Result<PcmSound, AudioError>) -> Result<PcmSoundView, Seq<char>> {
    match result {
        Ok(sound) => Ok(sound@),
        Err(error) => Err(error@),
    }
}

fn prefixed_error(prefix: &str, reason: &str) -> (error: AudioError)
    ensures
        error@ == prefix@ + reason@,
{
    let mut message = String::from_str(prefix);
    message.append(reason);
    AudioError::from_string(message)
}

/// Checks what the WAV reader returned and keeps the sound if the engine supports it.
pub fn pcm_sound_from_wav(contents: WavContents) -> (result: Result<PcmSound, AudioError>)
    ensures
        decode_result_view(result) == decoded_wav(wav_contents_view(contents)),
{
    let (format, samples) = match contents {
        Err(reason) => {
            return Err(prefixed_error("failed to read WAV: ", reason.as_str()));
        },
        Ok(read) => read,
    };
    if !format.integer_samples || format.bits_per_sample != 16 {
        return Err(AudioError::new("only 16-bit PCM WAV sounds are supported"));
    }
    if format.channels != 1 && format.channels != 2 {
        return Err(AudioError::new("only mono and stereo WAV sounds are supported"));
    }
    if format.sample_rate != 44_100 && format.sample_rate != 48_000 {
        return Err(AudioError::new("only 44100 Hz and 48000 Hz WAV sounds are supported"));
    }
    let samples = match samples {
        Err(reason) => {
            return Err(prefixed_error("failed to decode WAV sample: ", reason.as_str()));
        },
        Ok(samples) => samples,
    };
    if samples.len() == 0 {
        return Err(AudioError::new("WAV contains no samples"));
    }
    if samples.len() % (format.channels as usize) != 0 {
        return Err(AudioError::new("WAV sample count is not aligned to its channel count"));
    }
    Ok(PcmSound { channels: format.channels, sample_rate: format.sample_rate, samples })
}

/// Decodes a WAV file that the engine can play.
pub fn decode_wav(bytes: &[u8]) -> (result: Result<PcmSound, AudioError>)
    ensures
        decode_result_view(result) == decoded_wav(wav_contents(bytes@)),
{
    pcm_sound_from_wav(read_wav(bytes))
}

} // verus!
