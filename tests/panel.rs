use xray_panel::panel::{
    check_token_version, clean_web_root, parse_i64, probe_url, reality_check_verdict,
    token_user_id, update_env_content,
};
use xray_panel::ApiError;

#[test]
fn web_root_gets_both_slashes() {
    assert_eq!(clean_web_root("  panel "), "/panel/");
    assert_eq!(clean_web_root("/panel"), "/panel/");
    assert_eq!(clean_web_root("panel/"), "/panel/");
    assert_eq!(clean_web_root("/"), "/");
    assert_eq!(clean_web_root(""), "/");
}

#[test]
fn env_lines_are_replaced_in_place() {
    let content = "DATABASE_URL=sqlite:x.db\nSERVER_PORT=8080\nWEB_ROOT=/old/\nRUST_LOG=info";
    let out = update_env_content(content, 9090, "new");
    assert_eq!(out, "DATABASE_URL=sqlite:x.db\nSERVER_PORT=9090\nWEB_ROOT=/new/\nRUST_LOG=info");
}

#[test]
fn missing_env_lines_are_appended() {
    let out = update_env_content("A=1\r\nB=2\n", 443, "/");
    assert_eq!(out, "A=1\nB=2\nSERVER_PORT=443\nWEB_ROOT=/");
    let empty = update_env_content("", 80, "x");
    assert_eq!(empty, "SERVER_PORT=80\nWEB_ROOT=/x/");
}

#[test]
fn probe_url_drops_the_port() {
    assert_eq!(probe_url("www.example.com:443"), "https://www.example.com");
    assert_eq!(probe_url("example.org"), "https://example.org");
}

#[test]
fn reality_verdicts() {
    let ok = reality_check_verdict(true, false, false, 42);
    assert!(ok.is_valid && ok.has_tls13);
    assert_eq!(ok.key_exchange, "X25519");
    assert_eq!(ok.latency, 42);
    let old_tls = reality_check_verdict(false, true, false, 7);
    assert!(!old_tls.is_valid);
    assert_eq!(old_tls.key_exchange, "Unsupported");
    let down = reality_check_verdict(false, false, true, 6000);
    assert_eq!(down.key_exchange, "None");
    assert_eq!(
        down.message,
        "VPS failed to connect to target station: Request timeout (please check network quality)"
    );
    let reset = reality_check_verdict(false, false, false, 1);
    assert!(reset.message.contains("Connection reset"));
}

#[test]
fn signed_decimals() {
    assert_eq!(parse_i64("1"), Some(1));
    assert_eq!(parse_i64("+17"), Some(17));
    assert_eq!(parse_i64("-17"), Some(-17));
    assert_eq!(parse_i64("9223372036854775807"), Some(i64::MAX));
    assert_eq!(parse_i64("-9223372036854775808"), Some(i64::MIN));
    assert_eq!(parse_i64("9223372036854775808"), None);
    assert_eq!(parse_i64("-+1"), None);
    assert_eq!(parse_i64("-"), None);
    assert_eq!(parse_i64(""), None);
    assert_eq!(parse_i64("1a"), None);
}

#[test]
fn token_subject_and_version() {
    assert_eq!(token_user_id("12").unwrap(), 12);
    match token_user_id("abc") {
        Err(ApiError::Unauthorized(m)) => assert_eq!(m, "Invalid user ID in token"),
        _ => panic!("expected an authorization error"),
    }
    assert!(check_token_version(3, Some(3)).is_ok());
    match check_token_version(3, Some(4)) {
        Err(ApiError::Unauthorized(m)) => {
            assert_eq!(m, "Token has been invalidated due to password change")
        }
        _ => panic!("expected an authorization error"),
    }
    assert!(matches!(check_token_version(3, None), Err(ApiError::Unauthorized(_))));
}
