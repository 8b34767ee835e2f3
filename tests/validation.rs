use xray_panel::validation::{validate_password, validate_username};
use xray_panel::ApiError;

#[test]
fn test_validate_username() {
    assert!(validate_username("admin").is_ok());
    assert!(validate_username("user_123").is_ok());
    assert!(validate_username("test-user").is_ok());

    assert!(validate_username("ab").is_err());
    assert!(validate_username("a".repeat(33).as_str()).is_err());
    assert!(validate_username("user@123").is_err());
    assert!(validate_username("user 123").is_err());
}

#[test]
fn test_validate_password() {
    assert!(validate_password("1234").is_ok());
    assert!(validate_password("admin").is_ok());
    assert!(validate_password("password123").is_ok());

    assert!(validate_password("123").is_err());
    assert!(validate_password(&"a".repeat(129)).is_err());
}

#[test]
fn username_length_bounds_are_inclusive() {
    assert!(validate_username("abc").is_ok());
    assert!(validate_username(&"a".repeat(32)).is_ok());
    match validate_username("ab") {
        Err(ApiError::BadRequest(m)) => {
            assert_eq!(m, "Username must be between 3 and 32 characters")
        }
        _ => panic!("expected a length error"),
    }
}

#[test]
fn username_with_forbidden_character_reports_charset() {
    match validate_username("user@123") {
        Err(ApiError::BadRequest(m)) => assert_eq!(
            m,
            "Username can only contain letters, numbers, underscores, and hyphens"
        ),
        _ => panic!("expected a character error"),
    }
}

#[test]
fn username_characters_outside_ascii_are_refused() {
    assert!(validate_username("Ab9_-z").is_ok());
    assert!(matches!(validate_username("usér1"), Err(ApiError::BadRequest(_))));
    assert!(matches!(validate_username("abc\n"), Err(ApiError::BadRequest(_))));
}

#[test]
fn password_bounds_and_messages() {
    assert!(validate_password(&"a".repeat(128)).is_ok());
    match validate_password("123") {
        Err(ApiError::BadRequest(m)) => assert_eq!(m, "Password must be at least 4 characters"),
        _ => panic!("expected a short-password error"),
    }
    match validate_password(&"a".repeat(129)) {
        Err(e) => assert_eq!(e.message(), "Password cannot exceed 128 characters"),
        _ => panic!("expected a long-password error"),
    }
}
