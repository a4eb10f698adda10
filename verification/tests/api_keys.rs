use osmium::handlers::api_keys::{
    api_key_handle, api_key_secret_parts, base62_encode_fixed, check_permissions_subset,
    contains_permission, description_update, generate_api_key_secret, is_server_admin,
    normalize_optional_text, normalize_required_text, PermissionAction, PermissionPath,
    API_KEY_PREFIX, API_KEY_SUFFIX_LEN, API_KEY_TOTAL_LEN, SERVER_ADMIN_ROLE,
};
use osmium::error::ApiError;

fn perm(segments: &[&str], action: PermissionAction) -> PermissionPath {
    PermissionPath {
        segments: segments.iter().map(|s| s.to_string()).collect(),
        action,
    }
}

#[test]
fn token_generator_produces_well_formed_secret() {
    let secret = generate_api_key_secret().expect("token generator should succeed");
    assert_eq!(secret.len(), API_KEY_TOTAL_LEN);
    assert!(secret.starts_with(API_KEY_PREFIX));
    let suffix = &secret[API_KEY_PREFIX.len()..];
    assert_eq!(suffix.len(), API_KEY_SUFFIX_LEN);
    assert!(
        suffix.chars().all(|ch| ch.is_ascii_alphanumeric()),
        "secret suffix should be base62: {suffix}"
    );
}

#[test]
fn token_generator_produces_distinct_secrets() {
    let a = generate_api_key_secret().expect("first token");
    let b = generate_api_key_secret().expect("second token");
    assert_ne!(a, b, "two consecutive tokens must differ");
}

#[test]
fn base62_encoder_pads_short_values_to_width() {
    let encoded = base62_encode_fixed(&[0u8; 24], API_KEY_SUFFIX_LEN);
    assert_eq!(encoded.len(), API_KEY_SUFFIX_LEN);
    assert!(encoded.chars().all(|ch| ch == '0'));
}

#[test]
fn subset_check_rejects_request_outside_creator_set() {
    let creator: Vec<PermissionPath> = vec![perm(&["events", "items"], PermissionAction::Read)];
    let requested = vec![perm(&["events", "items"], PermissionAction::Create)];
    let outside = requested.iter().any(|p| !contains_permission(&creator, p));
    assert!(
        outside,
        "create permission should not be considered a subset of read"
    );
}

#[test]
fn subset_check_accepts_equal_set() {
    let creator: Vec<PermissionPath> = vec![perm(&["events", "items"], PermissionAction::Read)];
    let requested: Vec<PermissionPath> = vec![perm(&["events", "items"], PermissionAction::Read)];
    for permission in &requested {
        assert!(
            contains_permission(&creator, permission),
            "exact match should be a subset"
        );
    }
}

#[test]
fn base62_encoder_writes_known_value() {
    let mut bytes = [0u8; 24];
    bytes[23] = 61;
    let encoded = base62_encode_fixed(&bytes, 4);
    assert_eq!(encoded, "000z");
    bytes[23] = 62;
    assert_eq!(base62_encode_fixed(&bytes, 4), "0010");
    bytes[23] = 10;
    assert_eq!(base62_encode_fixed(&bytes, 2), "0A");
}

#[test]
fn permission_subset_check_outcomes() {
    let creator = vec![perm(&["events", "items"], PermissionAction::Read)];
    let no_roles: Vec<String> = vec![];
    assert_eq!(
        check_permissions_subset(&[], &no_roles, &creator),
        Err(ApiError::BadRequest)
    );
    assert_eq!(
        check_permissions_subset(&[perm(&["events", "items"], PermissionAction::Read)], &no_roles, &creator),
        Ok(())
    );
    assert_eq!(
        check_permissions_subset(&[perm(&["events", "items"], PermissionAction::Delete)], &no_roles, &creator),
        Err(ApiError::Unauthorized)
    );
    let admin = vec![SERVER_ADMIN_ROLE.to_string()];
    assert!(is_server_admin(&admin));
    assert_eq!(
        check_permissions_subset(&[perm(&["files"], PermissionAction::Delete)], &admin, &creator),
        Ok(())
    );
}

#[test]
fn key_text_fields_are_trimmed() {
    assert_eq!(normalize_required_text("  Bot Key "), Ok("Bot Key".to_string()));
    assert_eq!(normalize_required_text("   "), Err(ApiError::BadRequest));
    assert_eq!(normalize_optional_text(Some("  note ".to_string())), Some("note".to_string()));
    assert_eq!(normalize_optional_text(Some("  ".to_string())), None);
    assert_eq!(description_update(None), None);
    assert_eq!(description_update(Some(" ".to_string())), Some(None));
    assert_eq!(description_update(Some(" x ".to_string())), Some(Some("x".to_string())));
}

#[test]
fn key_display_parts_and_handle() {
    let (prefix, last_four) = api_key_secret_parts("osm_ABCDEFGHIJ");
    assert_eq!(prefix, "osm_ABCD");
    assert_eq!(last_four, "GHIJ");
    assert_eq!(api_key_handle("0123456789abcdef"), "apk_01234567");
}

#[test]
fn base62_text_reads_back_modulo_width() {
    fn value(text: &str) -> u128 {
        text.chars().fold(0u128, |acc, c| {
            let d = match c {
                '0'..='9' => c as u128 - 48,
                'A'..='Z' => c as u128 - 55,
                _ => c as u128 - 61,
            };
            acc * 62 + d
        })
    }
    assert_eq!(base62_encode_fixed(&[1, 0], 3), "048");
    let bytes = [0xde, 0xad, 0xbe, 0xef, 0x01];
    let be = bytes.iter().fold(0u128, |acc, b| acc * 256 + *b as u128);
    let text = base62_encode_fixed(&bytes, 4);
    assert!(text.chars().all(|c| c.is_ascii_alphanumeric()));
    assert_eq!(value(&text), be % 62u128.pow(4));
    assert_eq!(value(&base62_encode_fixed(&bytes, 9)), be);
}
