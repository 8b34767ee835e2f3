use crate::errors::{is_bad_request, ApiError};
use vstd::prelude::*;
use vstd::string::StringExecFns;

verus! {

/// A character a username may hold: an ASCII letter or digit, an underscore or a hyphen.
pub open spec fn is_username_char(c: char) -> bool {
    ('a' <= c && c <= 'z') || ('A' <= c && c <= 'Z') || ('0' <= c && c <= '9') || c == '_' || c
        == '-'
}

/// At least one character, each one a username character.
pub open spec fn is_username_text(s: Seq<char>) -> bool {
    s.len() > 0 && forall|i: int| 0 <= i < s.len() ==> is_username_char(#[trigger] s[i])
}

/// Letters, digits, underscores and hyphens, at least one, and nothing else.
pub const USERNAME_PATTERN: &'static str = "^[a-zA-Z0-9_-]+$";

pub const USERNAME_MIN_LEN: usize = 3;

pub const USERNAME_MAX_LEN: usize = 32;

pub const PASSWORD_MIN_LEN: usize = 4;

pub const PASSWORD_MAX_LEN: usize = 128;

pub open spec fn username_length_message() -> Seq<char> {
    "Username must be between 3 and 32 characters"@
}

pub open spec fn username_chars_message() -> Seq<char> {
    "Username can only contain letters, numbers, underscores, and hyphens"@
}

pub open spec fn password_short_message() -> Seq<char> {
    "Password must be at least 4 characters"@
}

pub open spec fn password_long_message() -> Seq<char> {
    "Password cannot exceed 128 characters"@
}

/// Relies on regex::Regex::new and Regex::is_match, on the username pattern only:
/// that pattern is valid and small, so it compiles; its class is anchored at both ends
/// of the text and repeated at least once, so it matches exactly the texts made of one
/// or more of its characters.
#[verifier::external_body]
fn username_pattern_matches(pattern: &str, text: &str) -> (r: Option<bool>)
    requires
        pattern@ == USERNAME_PATTERN@,
    ensures
        r == Some(is_username_text(text@)),
{
    regex::Regex::new(pattern).ok().map(|re| re.is_match(text))
}

/// Accepts a username of 3 to 32 bytes made of letters, digits, underscores and hyphens.
pub fn validate_username(username: &str) -> (r: Result<(), ApiError>)
    ensures
        (username.len() < USERNAME_MIN_LEN || username.len() > USERNAME_MAX_LEN) ==> is_bad_request(
            r,
            username_length_message(),
        ),
        USERNAME_MIN_LEN <= username.len() <= USERNAME_MAX_LEN && is_username_text(username@)
            ==> r is Ok,
        USERNAME_MIN_LEN <= username.len() <= USERNAME_MAX_LEN && !is_username_text(username@)
            ==> is_bad_request(r, username_chars_message()),
{
    let n = username.len();
    if n < USERNAME_MIN_LEN || n > USERNAME_MAX_LEN {
        return Err(ApiError::BadRequest(String::from_str("Username must be between 3 and 32 characters")));
    }
    match username_pattern_matches(USERNAME_PATTERN, username) {
        Some(true) => Ok(()),
        _ => Err(
            ApiError::BadRequest(
                String::from_str("Username can only contain letters, numbers, underscores, and hyphens"),
            ),
        ),
    }
}

/// Accepts a password of 4 to 128 bytes.
pub fn validate_password(password: &str) -> (r: Result<(), ApiError>)
    ensures
        password.len() < PASSWORD_MIN_LEN ==> is_bad_request(r, password_short_message()),
        password.len() > PASSWORD_MAX_LEN ==> is_bad_request(r, password_long_message()),
        PASSWORD_MIN_LEN <= password.len() <= PASSWORD_MAX_LEN ==> r is Ok,
{
    let n = password.len();
    if n < PASSWORD_MIN_LEN {
        return Err(ApiError::BadRequest(String::from_str("Password must be at least 4 characters")));
    }
    if n > PASSWORD_MAX_LEN {
        return Err(ApiError::BadRequest(String::from_str("Password cannot exceed 128 characters")));
    }
    Ok(())
}

} // verus!
