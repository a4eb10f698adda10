use osmium::error::ApiError;
use osmium::handlers::files::{
    audit_log_page, constant_time_eq, hex_encode, hex_nibble, max_upload_bytes,
    maybe_decrypt_blob, maybe_encrypt_blob, normalize_content_type_str, normalize_role_list,
    check_roles_known, parse_csv_i64, parse_csv_strings, parse_encryption_key_hex, parse_hex_pair,
    parse_range_value, sanitize_filename, sha256_hex, sign_download_token, signed_download_url,
    signed_url_expiry, storage_key_for_id, storage_root, token_is_valid_at, upload_body_problem,
    upload_filename, client_ip_from, signed_url_response, FileAuditQuery, SignedUrlQuery,
    file_policy_editable_without_grant, file_readable_by_access, file_readable_without_lookup,
    seal_blob,
};
use osmium::timestamp::UtcTimestamp;

#[test]
fn byte_ranges() {
    assert_eq!(parse_range_value("bytes=0-99", 1000), Ok((0, 99)));
    assert_eq!(parse_range_value("bytes=900-", 1000), Ok((900, 999)));
    assert_eq!(parse_range_value("bytes=-100", 1000), Ok((900, 999)));
    assert_eq!(parse_range_value("bytes=0-5000", 1000), Ok((0, 999)));
    assert!(parse_range_value("bytes=0-1,5-6", 1000).is_err());
    assert!(parse_range_value("items=0-1", 1000).is_err());
    assert!(parse_range_value("bytes=1000-", 1000).is_err());
}

#[test]
fn csv_lists() {
    assert_eq!(parse_csv_i64(Some("1, 2,,2 ,3")), Ok(vec![1, 2, 3]));
    assert_eq!(parse_csv_i64(Some("1,x")), Err(ApiError::BadRequest));
    assert_eq!(parse_csv_i64(None), Ok(vec![]));
    assert_eq!(parse_csv_strings(Some(" a ,b, ,a")), Ok(vec!["a".to_string(), "b".to_string()]));
}

#[test]
fn names_and_types() {
    assert_eq!(sanitize_filename("  report.pdf "), Ok("report.pdf".to_string()));
    assert_eq!(sanitize_filename("../etc/passwd"), Err(ApiError::BadRequest));
    assert_eq!(sanitize_filename("a\\b"), Err(ApiError::BadRequest));
    assert_eq!(sanitize_filename("   "), Err(ApiError::BadRequest));
    assert_eq!(normalize_content_type_str(" text/plain "), Ok("text/plain".to_string()));
    assert_eq!(normalize_content_type_str("a\nb"), Err(ApiError::BadRequest));
    assert_eq!(storage_key_for_id("abcdef"), "ab/abcdef.bin");
    assert_eq!(upload_filename(None, "abc"), Ok("abc.bin".to_string()));
    assert_eq!(upload_filename(Some("x.txt"), "abc"), Ok("x.txt".to_string()));
}

#[test]
fn hex_and_digests() {
    assert_eq!(hex_encode(&[0x00, 0xab, 0xff]), "00abff");
    assert_eq!(hex_nibble(b'f'), Some(15));
    assert_eq!(hex_nibble(b'G'), None);
    assert_eq!(parse_hex_pair(b'4', b'A'), Some(0x4a));
    assert_eq!(
        sha256_hex(b"abc"),
        "ba7816bf8f01cfea414140de5dae2223b00361a396177a9cb410ff61f20015ad"
    );
    assert!(constant_time_eq("abc", "abc"));
    assert!(!constant_time_eq("abc", "abd"));
    assert!(!constant_time_eq("abc", "ab"));
}

#[test]
fn encryption_keys() {
    assert_eq!(parse_encryption_key_hex(None), Ok(None));
    assert_eq!(parse_encryption_key_hex(Some("   ")), Ok(None));
    assert_eq!(parse_encryption_key_hex(Some("abcd")), Err(ApiError::ServiceUnavailable));
    let key = "00".repeat(31) + "ff";
    let parsed = parse_encryption_key_hex(Some(&key)).unwrap().unwrap();
    assert_eq!(parsed[31], 0xff);
    assert_eq!(parsed[0], 0);
}

#[test]
fn blobs_read_back() {
    let key = Ok(Some([7u8; 32]));
    let sealed = maybe_encrypt_blob(b"hello", &key).unwrap();
    assert_ne!(sealed, b"hello".to_vec());
    assert_eq!(maybe_decrypt_blob(&sealed, &key).unwrap(), b"hello".to_vec());
    let plain: Result<Option<[u8; 32]>, ApiError> = Ok(None);
    assert_eq!(maybe_encrypt_blob(b"hello", &plain).unwrap(), b"hello".to_vec());
    assert_eq!(maybe_decrypt_blob(b"hello", &plain).unwrap(), b"hello".to_vec());
}

#[test]
fn signed_links() {
    let sig = sign_download_token(Some("secret"), "file-1", 2000).unwrap();
    assert_eq!(sig.len(), 64);
    assert_eq!(token_is_valid_at(Some("secret"), "file-1", Some(2000), Some(&sig), 1000), Ok(true));
    assert_eq!(token_is_valid_at(Some("secret"), "file-1", Some(2000), Some(&sig), 3000), Ok(false));
    assert_eq!(token_is_valid_at(Some("secret"), "file-2", Some(2000), Some(&sig), 1000), Ok(false));
    assert_eq!(token_is_valid_at(Some("secret"), "file-1", None, Some(&sig), 1000), Ok(false));
    assert_eq!(sign_download_token(None, "file-1", 2000), Err(ApiError::ServiceUnavailable));
    assert_eq!(
        signed_download_url(Some("https://cdn.example//"), "f1", 99, "abc"),
        "https://cdn.example/cdn/f1?expires=99&sig=abc"
    );
    assert_eq!(
        signed_download_url(None, "f1", 0, "s"),
        "http://localhost:3000/cdn/f1?expires=0&sig=s"
    );
    let now = UtcTimestamp::new(1_000_000, 5).unwrap();
    let (e, at) = signed_url_expiry(&SignedUrlQuery { expires_in: None, never_expire: None }, now).unwrap();
    assert_eq!(e, 1_000_900);
    assert_eq!(at.secs(), 1_000_900);
    let (e, _) = signed_url_expiry(&SignedUrlQuery { expires_in: Some(5), never_expire: Some(false) }, now).unwrap();
    assert_eq!(e, 1_000_060);
    let (e, at) = signed_url_expiry(&SignedUrlQuery { expires_in: None, never_expire: Some(true) }, now).unwrap();
    assert_eq!(e, 0);
    assert_eq!(at.secs(), 253402300799);
}

#[test]
fn uploads_and_settings() {
    assert_eq!(upload_body_problem(0, 10), Some("empty_body"));
    assert_eq!(upload_body_problem(11, 10), Some("max_size_exceeded"));
    assert_eq!(upload_body_problem(10, 10), None);
    assert_eq!(max_upload_bytes(None), 25 * 1024 * 1024);
    assert_eq!(max_upload_bytes(Some("100")), 100);
    assert_eq!(storage_root(None), "./storage/files");
    let q = FileAuditQuery { file_id: None, limit: Some(1000), offset: Some(-4) };
    assert_eq!(audit_log_page(&q), (250, 0));
    let roles = normalize_role_list(&[" staff ".to_string(), "".to_string(), "STAFF".to_string(), "mentor".to_string()]);
    assert_eq!(roles, vec!["STAFF".to_string(), "MENTOR".to_string()]);
    assert_eq!(check_roles_known(&roles, &["STAFF".to_string(), "MENTOR".to_string()]), Ok(()));
    assert_eq!(check_roles_known(&roles, &["STAFF".to_string()]), Err(ApiError::BadRequest));
    assert_eq!(client_ip_from(Some(" 10.0.0.1 , 10.0.0.2"), Some("9.9.9.9")), "10.0.0.1");
    assert_eq!(client_ip_from(None, None), "unknown");
}

#[test]
fn issued_links_carry_a_valid_signature() {
    let now = UtcTimestamp::new(1_000_000, 0).unwrap();
    let query = SignedUrlQuery { expires_in: Some(120), never_expire: None };
    let resp = signed_url_response(Some("secret"), Some("https://cdn.example/"), "f1", &query, now).unwrap();
    assert_eq!(resp.expires_at.secs(), 1_000_120);
    let sig = sign_download_token(Some("secret"), "f1", 1_000_120).unwrap();
    assert_eq!(resp.url, format!("https://cdn.example/cdn/f1?expires=1000120&sig={}", sig));
    assert_eq!(token_is_valid_at(Some("secret"), "f1", Some(1_000_120), Some(&sig), 1_000_100), Ok(true));
    let forever = SignedUrlQuery { expires_in: None, never_expire: Some(true) };
    let resp = signed_url_response(Some("secret"), None, "f1", &forever, now).unwrap();
    assert!(resp.url.starts_with("http://localhost:3000/cdn/f1?expires=0&sig="));
    assert_eq!(resp.expires_at.secs(), 253402300799);
    assert_eq!(
        signed_url_response(Some("  "), None, "f1", &query, now).map(|r| r.url),
        Err(ApiError::ServiceUnavailable)
    );
}

#[test]
fn hexadecimal_key_reads_back() {
    let key: [u8; 32] = core::array::from_fn(|i| (i as u8).wrapping_mul(37).wrapping_add(5));
    let text = hex_encode(&key);
    assert_eq!(text.len(), 64);
    assert_eq!(parse_encryption_key_hex(Some(&text)), Ok(Some(key)));
}

#[test]
fn file_read_and_policy_decisions() {
    assert!(file_readable_without_lookup(true, "u1", None, "u9"));
    assert!(file_readable_without_lookup(false, "u9", None, "u9"));
    assert!(file_readable_without_lookup(false, "u1", Some("u9"), "u9"));
    assert!(!file_readable_without_lookup(false, "u1", Some("u2"), "u9"));
    let roles = vec!["STAFF".to_string()];
    let viewers = vec!["MENTOR".to_string(), "STAFF".to_string()];
    assert!(file_readable_by_access(false, &roles, &viewers));
    assert!(!file_readable_by_access(false, &roles, &viewers[..1]));
    assert!(file_readable_by_access(true, &[], &[]));
    assert!(file_policy_editable_without_grant(false, "u1", Some("u9"), "u9", &[], &[]));
    assert!(file_policy_editable_without_grant(false, "u1", None, "u9", &roles, &viewers));
    assert!(!file_policy_editable_without_grant(false, "u1", Some("u2"), "u9", &roles, &[]));
}

#[test]
fn sealed_blob_carries_marker_and_nonce() {
    let key = [7u8; 32];
    let nonce = [9u8; 12];
    let sealed = seal_blob(b"hello", &key, &nonce).unwrap();
    assert_eq!(&sealed[..7], b"OSMENC1");
    assert_eq!(&sealed[7..19], &nonce);
    assert_eq!(sealed.len(), 7 + 12 + 5 + 16);
    assert_eq!(maybe_decrypt_blob(&sealed, &Ok(Some(key))), Ok(b"hello".to_vec()));
    assert_ne!(seal_blob(b"hello", &key, &[8u8; 12]).unwrap(), sealed);
}
