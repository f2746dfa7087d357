use pspkit::custom_error::{returns_authentication_failed, returns_bad_length, string_checks, MyError};

#[test]
fn check_for_bad_length_error() {
    let rc = returns_bad_length();
    assert!(rc.is_err());
    assert_eq!(rc.unwrap_err(), MyError::BadLength);
}

#[test]
fn check_for_authentication_failed() {
    let rc = returns_authentication_failed();
    assert!(rc.is_err());
    assert_eq!(rc.unwrap_err(), MyError::AuthenticationFailed);
}

#[test]
fn test_string_checks() {
    let s = "";
    let rc = string_checks(s);
    assert!(rc.is_err());
    assert_eq!(rc.unwrap_err(), MyError::BadLength);
}

#[test]
fn string_checks_accepts_text() {
    assert_eq!(string_checks("Hello"), Ok(()));
}

#[test]
fn error_messages() {
    assert_eq!(MyError::BadLength.message(), "Bad length");
    assert_eq!(MyError::AuthenticationFailed.message(), "Authentication failed");
}
