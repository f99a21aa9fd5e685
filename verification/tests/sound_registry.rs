use gotoo_pixel_engine::{
    decode_wav, pcm16_mono_wav, pcm_sound_from_wav, same_sound, AudioBus, PcmSound, PlaybackId, SoundId,
    SoundRegistry, WavFormat,
};

const VALID_WAV: &[u8] = &[
    82, 73, 70, 70, 40, 0, 0, 0, 87, 65, 86, 69, 102, 109, 116, 32, 16, 0, 0, 0, 1, 0, 1, 0, 68, 172, 0, 0, 136,
    88, 1, 0, 2, 0, 16, 0, 100, 97, 116, 97, 4, 0, 0, 0, 0, 0, 255, 127,
];
const DIFFERENT_VALID_WAV: &[u8] = &[
    82, 73, 70, 70, 40, 0, 0, 0, 87, 65, 86, 69, 102, 109, 116, 32, 16, 0, 0, 0, 1, 0, 1, 0, 68, 172, 0, 0, 136,
    88, 1, 0, 2, 0, 16, 0, 100, 97, 116, 97, 4, 0, 0, 0, 0, 0, 0, 0,
];
const INVALID_WAV: &[u8] = b"not a wav";

fn test_sound() -> SoundId {
    SoundId::new("test.sound")
}

fn other_sound() -> SoundId {
    SoundId::new("test.other")
}

fn format(integer_samples: bool, bits_per_sample: u16, channels: u16, sample_rate: u32) -> WavFormat {
    WavFormat { integer_samples, bits_per_sample, channels, sample_rate }
}

#[test]
fn decodes_valid_pcm_16_wav() {
    let sound = decode_wav(VALID_WAV).expect("valid wav should decode");

    assert_eq!(sound.channels, 1);
    assert_eq!(sound.sample_rate, 44_100);
    assert_eq!(sound.samples.len(), 2);
    assert_eq!(sound.samples, vec![0, i16::MAX]);
}

#[test]
fn rejects_invalid_wav() {
    assert!(decode_wav(INVALID_WAV).is_err());
    assert!(decode_wav(INVALID_WAV).unwrap_err().message().starts_with("failed to read WAV: "));
}

#[test]
fn wav_contents_are_checked_in_order() {
    let ok = |samples: Vec<i16>| Ok::<Vec<i16>, String>(samples);
    let cases = [
        (Err("bad header".to_string()), "failed to read WAV: bad header"),
        (Ok((format(false, 16, 1, 44_100), ok(vec![1]))), "only 16-bit PCM WAV sounds are supported"),
        (Ok((format(true, 24, 1, 44_100), ok(vec![1]))), "only 16-bit PCM WAV sounds are supported"),
        (Ok((format(true, 16, 3, 44_100), ok(vec![1]))), "only mono and stereo WAV sounds are supported"),
        (Ok((format(true, 16, 1, 22_050), ok(vec![1]))), "only 44100 Hz and 48000 Hz WAV sounds are supported"),
        (Ok((format(true, 16, 1, 48_000), Err("short".to_string()))), "failed to decode WAV sample: short"),
        (Ok((format(true, 16, 2, 48_000), ok(vec![]))), "WAV contains no samples"),
        (Ok((format(true, 16, 2, 48_000), ok(vec![1, 2, 3]))), "WAV sample count is not aligned to its channel count"),
    ];
    for (contents, message) in cases {
        assert_eq!(pcm_sound_from_wav(contents).unwrap_err().message(), message);
    }
    let sound = pcm_sound_from_wav(Ok((format(true, 16, 2, 48_000), ok(vec![1, 2, 3, 4])))).unwrap();
    assert_eq!((sound.channels, sound.sample_rate, sound.samples), (2, 48_000, vec![1, 2, 3, 4]));
}

#[test]
fn generated_pcm_wav_is_accepted_by_audio_backend() {
    let generated = SoundId::new("test.generated");
    let wav = pcm16_mono_wav(44_100, &[0, i16::MAX, 0, i16::MIN]).expect("supported PCM should encode");
    let mut audio = SoundRegistry::new();

    audio
        .register_wav(generated, &wav)
        .expect("generated WAV should be accepted by the audio backend");
    assert!(audio.play(generated).is_ok());
    assert_eq!(decode_wav(&wav).unwrap().samples, vec![0, i16::MAX, 0, i16::MIN]);
}

#[test]
fn noop_audio_registers_valid_wav() {
    let mut audio = SoundRegistry::new();

    assert!(audio.register_wav(test_sound(), VALID_WAV).is_ok());
}

#[test]
fn noop_audio_rejects_invalid_wav() {
    let mut audio = SoundRegistry::new();

    assert!(audio.register_wav(test_sound(), INVALID_WAV).is_err());
    assert!(!audio.is_registered(test_sound()));
}

#[test]
fn noop_audio_registration_is_idempotent_for_same_sound() {
    let mut audio = SoundRegistry::new();

    audio.register_wav(test_sound(), VALID_WAV).expect("first register should succeed");
    audio
        .register_wav(test_sound(), VALID_WAV)
        .expect("same id and sound should remain idempotent");
}

#[test]
fn noop_audio_rejects_same_id_with_different_sound() {
    let mut audio = SoundRegistry::new();

    audio.register_wav(test_sound(), VALID_WAV).expect("first register should succeed");
    let error = audio
        .register_wav(test_sound(), DIFFERENT_VALID_WAV)
        .expect_err("same id with different audio data should be rejected");

    assert!(error.message().contains("different audio data"));
    assert_eq!(error.message(), "sound 'test.sound' is already registered with different audio data");
}

#[test]
fn noop_audio_reports_unknown_sound() {
    let mut audio = SoundRegistry::new();

    assert!(audio.play(test_sound()).is_err());
    assert_eq!(audio.play(test_sound()).unwrap_err().message(), "sound 'test.sound' is not registered");
}

#[test]
fn noop_audio_allows_multiple_plays_of_registered_sound() {
    let mut audio = SoundRegistry::new();
    audio.register_wav(test_sound(), VALID_WAV).expect("register should succeed");

    assert!(audio.play(test_sound()).is_ok());
    assert!(audio.play(test_sound()).is_ok());
}

#[test]
fn noop_audio_starts_and_stops_identifiable_loop() {
    let mut audio = SoundRegistry::new();
    audio.register_wav(test_sound(), VALID_WAV).expect("register should succeed");

    let playback = audio.start_loop(test_sound()).expect("registered sound should loop");

    assert_eq!(audio.loop_sound(playback), Some(test_sound()));
    assert_eq!(audio.loop_bus(playback), Some(AudioBus::Sfx));
    assert!(audio.stop_loop(playback).is_ok());
    assert!(audio.loop_sound(playback).is_none());
    assert!(audio.loop_bus(playback).is_none());
}

#[test]
fn noop_audio_double_stop_reports_inactive_loop() {
    let mut audio = SoundRegistry::new();
    audio.register_wav(test_sound(), VALID_WAV).expect("register should succeed");

    let playback = audio.start_loop(test_sound()).expect("registered sound should loop");

    assert!(audio.stop_loop(playback).is_ok());
    let error = audio.stop_loop(playback).expect_err("double stop should be explicit");
    assert!(error.message().contains("is not active"));
    assert_eq!(error.message(), "looped playback '1' is not active");
}

#[test]
fn different_sound_ids_are_distinct() {
    let mut audio = SoundRegistry::new();
    audio.register_wav(test_sound(), VALID_WAV).expect("register should succeed");

    assert!(audio.play(other_sound()).is_err());
}

#[test]
fn loops_get_fresh_numbers_and_keep_their_bus() {
    let mut audio = SoundRegistry::new();
    audio.register_wav(test_sound(), VALID_WAV).unwrap();
    let first = audio.start_loop_on_bus(test_sound(), AudioBus::Ui).unwrap();
    let second = audio.start_loop(test_sound()).unwrap();
    assert_eq!((first.get(), second.get()), (1, 2));
    assert_eq!(audio.loop_bus(first), Some(AudioBus::Ui));
    assert!(audio.stop_loop(first).is_ok());
    assert_eq!(audio.loop_sound(second), Some(test_sound()));
    assert!(audio.stop_loop(PlaybackId::new(7)).is_err());
    assert!(audio.start_loop(other_sound()).is_err());
}

#[test]
fn same_sound_compares_format_and_samples() {
    let sound = |channels, samples: Vec<i16>| PcmSound { channels, sample_rate: 44_100, samples };
    assert!(same_sound(&sound(1, vec![1, 2]), &sound(1, vec![1, 2])));
    assert!(!same_sound(&sound(1, vec![1, 2]), &sound(2, vec![1, 2])));
    assert!(!same_sound(&sound(1, vec![1, 2]), &sound(1, vec![1, 3])));
}
