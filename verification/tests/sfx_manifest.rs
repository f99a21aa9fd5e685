use gotoo_pixel_engine::{validate_path, ManifestValue, SfxManifest};

#[test]
fn parses_single_and_variant_wav_paths() {
    let manifest = SfxManifest::parse(
        r#"{
                "hit": "assets/hit.wav",
                "death": ["assets/death1.wav", "assets/death2.wav"]
            }"#,
    )
    .expect("valid manifest should parse");

    assert_eq!(manifest.path("hit").unwrap(), "assets/hit.wav");
    assert_eq!(
        manifest.paths("death").unwrap(),
        &["assets/death1.wav".to_string(), "assets/death2.wav".to_string()]
    );
}

#[test]
fn reports_missing_required_key() {
    let manifest = SfxManifest::parse(r#"{"hit":"assets/hit.wav"}"#).unwrap();
    let error = manifest
        .require_keys(&["hit", "death"])
        .expect_err("missing key should fail");
    assert!(error.message().contains("death"));
}

#[test]
fn rejects_non_wav_paths() {
    let error = SfxManifest::parse(r#"{"hit":"assets/hit.mp3"}"#)
        .expect_err("unsupported format should fail");
    assert!(error.message().contains("unsupported audio format"));
}

#[test]
fn rejects_empty_variant_lists() {
    let error = SfxManifest::parse(r#"{"death":[]}"#)
        .expect_err("empty variant list should fail");
    assert!(error.message().contains("at least one WAV path"));
}

#[test]
fn manifest_error_messages_are_exact() {
    let cases = [
        (r#"{"hit":"assets/hit.mp3"}"#, "unsupported audio format for SFX manifest entry 'hit': 'assets/hit.mp3'"),
        (r#"{"death":[]}"#, "SFX manifest entry 'death' must contain at least one WAV path"),
        (r#"{"  ":"a.wav"}"#, "SFX manifest keys must not be empty"),
        (r#"{"hit":"   "}"#, "SFX manifest entry 'hit' contains an empty path"),
        (r#"{"hit":["a.wav", 3]}"#, "SFX manifest entry 'hit' must contain only file path strings"),
        (r#"{"hit":7}"#, "SFX manifest entry 'hit' must be a WAV path string or an array of WAV paths"),
        (r#"["a.wav"]"#, "invalid SFX manifest JSON: root must be an object"),
    ];
    for (json, message) in cases {
        assert_eq!(SfxManifest::parse(json).unwrap_err().message(), message);
    }
}

#[test]
fn malformed_json_reports_the_reader_error() {
    let error = SfxManifest::parse("{").unwrap_err();
    assert!(error.message().starts_with("invalid SFX manifest JSON: "));
    assert!(error.message().len() > "invalid SFX manifest JSON: ".len());
}

#[test]
fn wav_extension_ignores_ascii_case() {
    let manifest = SfxManifest::parse(r#"{"hit":"assets/HIT.WaV"}"#).unwrap();
    assert_eq!(manifest.path("hit").unwrap(), "assets/HIT.WaV");
    assert!(manifest.contains_key("hit"));
    assert!(!manifest.contains_key("miss"));
    assert!(manifest.paths("miss").is_none());
}

#[test]
fn path_requires_exactly_one_file() {
    let manifest = SfxManifest::parse(r#"{"death":["a.wav","b.wav"]}"#).unwrap();
    assert_eq!(
        manifest.path("death").unwrap_err().message(),
        "SFX manifest entry 'death' must contain exactly one WAV path"
    );
    assert_eq!(
        manifest.path("hit").unwrap_err().message(),
        "missing required SFX manifest entry 'hit'"
    );
    assert!(manifest.require_keys(&["death"]).is_ok());
    assert_eq!(
        manifest.require_keys(&["a", "b"]).unwrap_err().message(),
        "missing required SFX manifest entry 'a'"
    );
}

#[test]
fn documents_are_checked_member_by_member() {
    let members = vec![
        ("hit".to_string(), ManifestValue::Text("hit.wav".to_string())),
        ("hit".to_string(), ManifestValue::List(vec![Some("x.wav".to_string()), Some("y.WAV".to_string())])),
        ("jump".to_string(), ManifestValue::Text("jump.wav".to_string())),
    ];
    let manifest = SfxManifest::from_json_document(Ok(Some(members))).unwrap();
    assert_eq!(manifest.paths("hit").unwrap(), &["x.wav".to_string(), "y.WAV".to_string()]);
    assert_eq!(manifest.path("jump").unwrap(), "jump.wav");

    let members = vec![
        ("a".to_string(), ManifestValue::Other),
        ("b".to_string(), ManifestValue::Text("b.mp3".to_string())),
    ];
    assert_eq!(
        SfxManifest::from_json_document(Ok(Some(members))).unwrap_err().message(),
        "SFX manifest entry 'a' must be a WAV path string or an array of WAV paths"
    );
    assert_eq!(
        SfxManifest::from_json_document(Err("EOF".to_string())).unwrap_err().message(),
        "invalid SFX manifest JSON: EOF"
    );
}

#[test]
fn validate_path_hands_back_valid_paths() {
    assert_eq!(validate_path("k", "x.wav").unwrap(), "x.wav");
    assert_eq!(validate_path("k", "\u{3000}").unwrap_err().message(), "SFX manifest entry 'k' contains an empty path");
    assert_eq!(
        validate_path("k", "wav").unwrap_err().message(),
        "unsupported audio format for SFX manifest entry 'k': 'wav'"
    );
}
