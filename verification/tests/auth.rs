use osmium::error::ApiError;
use osmium::handlers::api_keys::SERVER_ADMIN_ROLE;
use osmium::handlers::auth::{
    api_dev_mode_enabled, check_login_origin, check_oauth_callback, configured_server_admin_cid,
    cookie_secure, env_flag_enabled, grants_server_admin, parse_prompt, request_origin_from,
    url_origin, validate_timezone, CallbackQuery,
};

#[test]
fn parses_configured_server_admin_cid() {
    assert_eq!(configured_server_admin_cid(Some("1234567")), Some(1234567));
}

#[test]
fn ignores_invalid_configured_server_admin_cid() {
    assert_eq!(configured_server_admin_cid(Some("abc")), None);
}

#[test]
fn ignores_missing_configured_server_admin_cid() {
    assert_eq!(configured_server_admin_cid(None), None);
}

#[test]
fn server_admin_role_constant_is_stable() {
    assert_eq!(SERVER_ADMIN_ROLE, "SERVER_ADMIN");
}

#[test]
fn server_admin_cid_edge_cases() {
    assert_eq!(configured_server_admin_cid(Some("  42 ")), Some(42));
    assert_eq!(configured_server_admin_cid(Some("0")), None);
    assert_eq!(configured_server_admin_cid(Some("-5")), None);
    assert_eq!(configured_server_admin_cid(Some("   ")), None);
    assert!(grants_server_admin(Some(42), 42));
    assert!(!grants_server_admin(Some(42), 43));
    assert!(!grants_server_admin(None, 42));
}

#[test]
fn prompt_values() {
    assert_eq!(parse_prompt(None), Ok(None));
    assert_eq!(parse_prompt(Some("  ")), Ok(None));
    assert_eq!(parse_prompt(Some(" login ")), Ok(Some("login")));
    assert_eq!(parse_prompt(Some("select_account")), Err(ApiError::BadRequest));
}

#[test]
fn oauth_callback_checks() {
    let q = CallbackQuery { code: Some(" abc ".to_string()), state: Some("s1".to_string()) };
    assert_eq!(check_oauth_callback(&q, Some("s1")), Ok("abc"));
    assert_eq!(check_oauth_callback(&q, None), Err(ApiError::OAuthStateCookieMissing));
    assert_eq!(check_oauth_callback(&q, Some("s2")), Err(ApiError::OAuthStateMismatch));
    let q = CallbackQuery { code: None, state: Some("s1".to_string()) };
    assert_eq!(check_oauth_callback(&q, Some("s1")), Err(ApiError::BadRequest));
    let q = CallbackQuery { code: Some("abc".to_string()), state: Some(" ".to_string()) };
    assert_eq!(check_oauth_callback(&q, Some("s1")), Err(ApiError::BadRequest));
}

#[test]
fn flags_and_cookies() {
    assert!(env_flag_enabled(Some(" ON ")));
    assert!(!env_flag_enabled(Some("off")));
    assert!(!env_flag_enabled(None));
    assert!(cookie_secure(Some("Yes")));
    assert!(!cookie_secure(Some("on")));
    assert!(api_dev_mode_enabled(None, Some("1")));
    assert!(!api_dev_mode_enabled(None, None));
}

#[test]
fn origins() {
    assert_eq!(url_origin("https://osmium.example.com/auth/callback").as_deref(), Some("https://osmium.example.com"));
    assert_eq!(url_origin("http://localhost:3000/cb").as_deref(), Some("http://localhost:3000"));
    assert_eq!(url_origin("https://example.com:8443/x").as_deref(), Some("https://example.com:8443"));
    assert_eq!(url_origin("not a url"), None);
    assert_eq!(
        request_origin_from(None, Some("api.example.com".to_string()), Some("ignored".to_string()), Some("https".to_string())).as_deref(),
        Some("https://api.example.com")
    );
    assert_eq!(
        request_origin_from(None, None, Some("localhost:3000".to_string()), None).as_deref(),
        Some("http://localhost:3000")
    );
    assert_eq!(
        request_origin_from(Some("https://a.example".to_string()), None, None, None).as_deref(),
        Some("https://a.example")
    );
    assert_eq!(request_origin_from(None, None, None, Some("https".to_string())), None);
    assert_eq!(check_login_origin(Some("http://localhost:3000"), "http://localhost:3000/cb"), Ok(()));
    assert_eq!(
        check_login_origin(Some("http://evil.example"), "http://localhost:3000/cb"),
        Err(ApiError::OAuthLoginOriginMismatch)
    );
    assert_eq!(check_login_origin(None, "http://localhost:3000/cb"), Err(ApiError::OAuthLoginOriginMismatch));
    assert_eq!(check_login_origin(Some("x"), "nope"), Err(ApiError::Internal));
}

#[test]
fn time_zones() {
    assert_eq!(validate_timezone(" America/New_York "), Ok("America/New_York".to_string()));
    assert_eq!(validate_timezone("Mars/Olympus"), Err(ApiError::BadRequest));
    assert_eq!(validate_timezone("  "), Err(ApiError::BadRequest));
}
