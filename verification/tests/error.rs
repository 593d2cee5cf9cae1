//! Tests for the typed error values.

use surena_game::error::{Error, ErrorCode, ErrorString};

#[test]
fn error_without_message() {
    let e = Error::new(ErrorCode::Retry);
    assert_eq!(ErrorCode::Retry, e.code);
    assert_eq!(ErrorString::Absent, e.message);
}

#[test]
fn static_message_is_stored_as_it_stands() {
    let e = Error::new_static(ErrorCode::InvalidInput, "missing counter value");
    assert_eq!(ErrorCode::InvalidInput, e.code);
    assert_eq!(
        ErrorString::Text(b"missing counter value".to_vec()),
        e.message
    );
}

#[test]
fn dynamic_message_has_terminator_bytes_stripped() {
    let e = Error::new_dynamic(ErrorCode::InvalidOptions, vec![104, 0, 105, 0, 33]);
    assert_eq!(ErrorCode::InvalidOptions, e.code);
    assert_eq!(ErrorString::Text(vec![104, 105, 33]), e.message);
}

#[test]
fn dynamic_message_without_terminators_is_unchanged() {
    let e = Error::new_dynamic(ErrorCode::OutOfMemory, b"oom".to_vec());
    assert_eq!(ErrorString::Text(b"oom".to_vec()), e.message);
}
