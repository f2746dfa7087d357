//! A small error type used with `Result`, and checks that return it.
use vstd::prelude::*;

verus! {

#[derive(Clone, Copy, Debug, PartialEq, Eq, Structural)]
pub enum MyError {
    BadLength,
    AuthenticationFailed,
}

impl MyError {
    /// The message shown for the error.
    pub fn message(&self) -> (m: &'static str)
        ensures
            m@ == match self {
                MyError::BadLength => "Bad length"@,
                MyError::AuthenticationFailed => "Authentication failed"@,
            },
    {
        match self {
            MyError::BadLength => "Bad length",
            MyError::AuthenticationFailed => "Authentication failed",
        }
    }
}

pub fn returns_bad_length() -> (r: Result<(), MyError>)
    ensures
        r == Err::<(), MyError>(MyError::BadLength),
{
    Err(MyError::BadLength)
}

pub fn returns_authentication_failed() -> (r: Result<(), MyError>)
    ensures
        r == Err::<(), MyError>(MyError::AuthenticationFailed),
{
    Err(MyError::AuthenticationFailed)
}

/// Accepts any string but the empty one.
pub fn string_checks(s: &str) -> (r: Result<(), MyError>)
    ensures
        s@.len() == 0 ==> r == Err::<(), MyError>(MyError::BadLength),
        s@.len() != 0 ==> r == Ok::<(), MyError>(()),
{
    if s.is_empty() {
        return Err(MyError::BadLength);
    }
    Ok(())
}

} // verus!
