use gotoo_pixel_engine::{storage_file_name, validate_storage_key, LocalStorage, NoopStorage};

#[test]
fn storage_file_name_accepts_only_portable_keys() {
    assert_eq!(
        storage_file_name("gotoo-pixel-engine.snake.best_score.v1"),
        Ok("gotoo-pixel-engine.snake.best_score.v1.txt".into())
    );
    assert!(storage_file_name("../bad/key").is_err());
    assert!(storage_file_name("a?b").is_err());
    assert!(storage_file_name("").is_err());
    assert!(storage_file_name(".").is_err());
    assert!(storage_file_name("..").is_err());
}

#[test]
fn dotted_keys_other_than_dot_and_dot_dot_are_portable() {
    assert!(validate_storage_key("...").is_ok());
    assert!(validate_storage_key(".a").is_ok());
    assert!(validate_storage_key("é").is_err());
    assert_eq!(
        validate_storage_key("a b").unwrap_err().message(),
        "local storage keys may contain only ASCII letters, digits, '.', '_' and '-'"
    );
}

#[test]
fn noop_storage_keeps_nothing() {
    let mut storage = NoopStorage;
    assert!(storage.set("key", "value").is_ok());
    assert_eq!(storage.get("key"), Ok(None));
}
