use gmo_sync::auth::create_auth_headers;

#[test]
fn signature_is_the_hex_of_the_hmac() {
    // HMAC-SHA256 of "The quick brown fox jumps over the lazy dog" under "key".
    let h = create_auth_headers(
        "my-key",
        "key",
        "The quick ",
        "brown fox ",
        "jumps over ",
        "the lazy dog",
    )
    .unwrap();
    assert_eq!(h.api_sign, "f7bc83f430538424b13298e6aa6fb143ef4d59a14946175997479dbc2d1a3cd8");
    assert_eq!(h.api_key, "my-key");
    assert_eq!(h.api_timestamp, "The quick ");
}

#[test]
fn signature_covers_timestamp_method_path_and_body() {
    let base = create_auth_headers("k", "s", "1700000000000", "GET", "/v1/executions", "").unwrap();
    let again = create_auth_headers("k", "s", "1700000000000", "GET", "/v1/executions", "").unwrap();
    assert_eq!(base, again);
    assert_eq!(base.api_sign.len(), 64);
    assert!(base.api_sign.chars().all(|c| c.is_ascii_digit() || ('a'..='f').contains(&c)));
    let other_time = create_auth_headers("k", "s", "1700000000001", "GET", "/v1/executions", "");
    let other_method = create_auth_headers("k", "s", "1700000000000", "POST", "/v1/executions", "");
    let other_path = create_auth_headers("k", "s", "1700000000000", "GET", "/v1/account/assets", "");
    let other_body = create_auth_headers("k", "s", "1700000000000", "GET", "/v1/executions", "{}");
    let other_secret = create_auth_headers("k", "t", "1700000000000", "GET", "/v1/executions", "");
    assert_ne!(base.api_sign, other_time.unwrap().api_sign);
    assert_ne!(base.api_sign, other_method.unwrap().api_sign);
    assert_ne!(base.api_sign, other_path.unwrap().api_sign);
    assert_ne!(base.api_sign, other_body.unwrap().api_sign);
    assert_ne!(base.api_sign, other_secret.unwrap().api_sign);
}

#[test]
fn key_header_does_not_enter_the_signature() {
    let a = create_auth_headers("k1", "s", "1", "GET", "/p", "").unwrap();
    let b = create_auth_headers("k2", "s", "1", "GET", "/p", "").unwrap();
    assert_eq!(a.api_sign, b.api_sign);
    assert_ne!(a.api_key, b.api_key);
}
