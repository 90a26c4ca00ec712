use zero2prod::idempotency::key::{IdempotencyKey, KeyError, MAX_KEY_LENGTH};

#[test]
fn a_key_of_ordinary_length_is_accepted() {
    let key = IdempotencyKey::parse("abc123".to_string()).expect("a valid key");
    assert_eq!(key.as_str(), "abc123");
}

#[test]
fn an_empty_key_is_rejected() {
    assert_eq!(IdempotencyKey::parse(String::new()).unwrap_err(), KeyError::Empty);
}

#[test]
fn a_key_of_exactly_the_maximum_length_is_accepted() {
    let text = "k".repeat(MAX_KEY_LENGTH);
    let key = IdempotencyKey::parse(text.clone()).expect("a valid key");
    assert_eq!(key.as_str(), text);
}

#[test]
fn a_key_longer_than_the_maximum_is_rejected() {
    let text = "k".repeat(MAX_KEY_LENGTH + 1);
    assert_eq!(IdempotencyKey::parse(text).unwrap_err(), KeyError::TooLong);
}

#[test]
fn key_length_counts_characters_not_bytes() {
    let text = "é".repeat(MAX_KEY_LENGTH);
    assert!(text.len() > MAX_KEY_LENGTH);
    assert!(IdempotencyKey::parse(text).is_ok());
}

#[test]
fn try_from_agrees_with_parse() {
    assert!(IdempotencyKey::try_from("abc123".to_string()).is_ok());
    assert_eq!(IdempotencyKey::try_from(String::new()).unwrap_err(), KeyError::Empty);
    assert_eq!(
        IdempotencyKey::try_from("k".repeat(51)).unwrap_err(),
        KeyError::TooLong
    );
}

#[test]
fn key_errors_have_messages() {
    assert_eq!(KeyError::Empty.message(), "The idempotency key cannot be empty");
    assert_eq!(
        KeyError::TooLong.message(),
        "The idempotency key cannot be longer than 50 characters"
    );
}
