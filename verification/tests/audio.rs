use gotoo_pixel_engine::{pcm16_mono_wav, SoundBank, SoundId};

#[test]
fn sound_id_keeps_stable_namespace() {
    assert_eq!(SoundId::new("snake.eat").as_str(), "snake.eat");
}

#[test]
fn pcm_wav_encoder_rejects_unsupported_sample_rate() {
    assert!(pcm16_mono_wav(22_050, &[0]).is_err());
}

#[test]
fn pcm_wav_encoder_rejects_empty_sound() {
    assert!(pcm16_mono_wav(44_100, &[]).is_err());
}

#[test]
fn pcm_wav_encoder_error_messages() {
    assert_eq!(
        pcm16_mono_wav(22_050, &[0]).unwrap_err().message(),
        "only 44100 Hz and 48000 Hz PCM WAV sounds are supported"
    );
    assert_eq!(
        pcm16_mono_wav(48_000, &[]).unwrap_err().message(),
        "PCM sound contains no samples"
    );
}

#[test]
fn pcm_wav_encoder_writes_header_and_little_endian_samples() {
    let wav = pcm16_mono_wav(44_100, &[0, i16::MAX]).unwrap();
    let expected: Vec<u8> = vec![
        82, 73, 70, 70, 40, 0, 0, 0, 87, 65, 86, 69, 102, 109, 116, 32, 16, 0, 0, 0, 1, 0, 1, 0,
        68, 172, 0, 0, 136, 88, 1, 0, 2, 0, 16, 0, 100, 97, 116, 97, 4, 0, 0, 0, 0, 0, 255, 127,
    ];
    assert_eq!(wav, expected);
}

#[test]
fn pcm_wav_encoder_writes_negative_samples_in_twos_complement() {
    let wav = pcm16_mono_wav(48_000, &[-1, i16::MIN]).unwrap();
    assert_eq!(&wav[44..], &[255, 255, 0, 128]);
    assert_eq!(&wav[24..28], &[128, 187, 0, 0]);
}

#[test]
fn sound_bank_refuses_duplicate_names() {
    let mut bank = SoundBank::new();
    assert!(bank.insert_wav(SoundId::new("a"), vec![1, 2]).is_ok());
    assert!(bank.contains(SoundId::new("a")));
    assert!(!bank.contains(SoundId::new("b")));
    let error = bank.insert_wav(SoundId::new("a"), vec![3]).unwrap_err();
    assert_eq!(error.message(), "sound 'a' is already present in the bank");
}

#[test]
fn sound_bank_reports_pending_registrations() {
    let mut bank = SoundBank::new();
    bank.insert_wav(SoundId::new("clip"), vec![9, 8, 7]).unwrap();
    assert_eq!(
        bank.pending_registration(SoundId::new("clip")).unwrap(),
        Some(&[9u8, 8, 7][..])
    );
    bank.mark_registered(SoundId::new("clip"));
    assert_eq!(bank.pending_registration(SoundId::new("clip")).unwrap(), None);
    let error = bank.pending_registration(SoundId::new("missing")).unwrap_err();
    assert_eq!(error.message(), "sound 'missing' is not present in the bank");
    assert_eq!(
        bank.ids().iter().map(|id| id.as_str()).collect::<Vec<_>>(),
        vec!["clip"]
    );
}
