//! The credential record's JSON codec: the canonical form, the round trip,
//! tolerance of whitespace and unknown fields, and what counts as corrupt.

use aichat::credentials::{
    Credentials, UserInfo, CredentialStore, StoreError, render_credentials, parse_credentials,
};

fn full_record() -> Credentials {
    Credentials {
        access_token: "tok-1".to_string(),
        refresh_token: Some("ref-1".to_string()),
        token_type: Some("Bearer".to_string()),
        expiry_date: Some(1700000000),
        user_info: Some(UserInfo { email: "a@b.example".to_string() }),
    }
}

#[test]
fn canonical_form_is_exact() {
    let text = render_credentials(&full_record());
    assert_eq!(
        text,
        "{\"access_token\":\"tok-1\",\"refresh_token\":\"ref-1\",\"token_type\":\"Bearer\",\
         \"expiry_date\":1700000000,\"user_info\":{\"email\":\"a@b.example\"}}"
    );
}

#[test]
fn write_then_read_full_record() {
    let c = full_record();
    let back = parse_credentials(&render_credentials(&c)).unwrap();
    assert!(back == c);
}

#[test]
fn write_then_read_minimal_record() {
    let c = Credentials {
        access_token: "t".to_string(),
        refresh_token: None,
        token_type: None,
        expiry_date: None,
        user_info: None,
    };
    let text = render_credentials(&c);
    assert_eq!(
        text,
        "{\"access_token\":\"t\",\"refresh_token\":null,\"token_type\":null,\
         \"expiry_date\":null,\"user_info\":null}"
    );
    let back = parse_credentials(&text).unwrap();
    assert!(back == c);
}

#[test]
fn write_then_read_awkward_strings() {
    let c = Credentials {
        access_token: "with \"quotes\" and \\slashes\\ and\nnewlines\tand\u{1}ctl".to_string(),
        refresh_token: Some("".to_string()),
        token_type: Some("ütf8 ✓".to_string()),
        expiry_date: Some(-12),
        user_info: Some(UserInfo { email: "x".to_string() }),
    };
    let back = parse_credentials(&render_credentials(&c)).unwrap();
    assert!(back == c);
}

#[test]
fn parsing_tolerates_whitespace_order_and_unknown_fields() {
    let text = " {\n  \"scope\": [\"a\", {\"n\": true}] ,\n  \"expiry_date\" : 42,\n  \
                \"access_token\"\t: \"T\",\n  \"extra\": -7\n } ";
    let c = parse_credentials(text).unwrap();
    assert_eq!(c.access_token, "T");
    assert_eq!(c.expiry_date, Some(42));
    assert!(c.refresh_token.is_none());
    assert!(c.token_type.is_none());
    assert!(c.user_info.is_none());
}

#[test]
fn escape_sequences_decode() {
    let text = "{\"access_token\":\"\\u0041\\n\\\"\\\\\"}";
    let c = parse_credentials(text).unwrap();
    assert_eq!(c.access_token, "A\n\"\\");
}

#[test]
fn corrupt_inputs_are_rejected() {
    // Not JSON at all.
    assert!(parse_credentials("").is_none());
    assert!(parse_credentials("nonsense").is_none());
    // No access token.
    assert!(parse_credentials("{}").is_none());
    assert!(parse_credentials("{\"refresh_token\":\"r\"}").is_none());
    // An empty access token.
    assert!(parse_credentials("{\"access_token\":\"\"}").is_none());
    // A wrongly typed field.
    assert!(parse_credentials("{\"access_token\":5}").is_none());
    assert!(parse_credentials("{\"access_token\":\"t\",\"expiry_date\":\"soon\"}").is_none());
    // A repeated field.
    assert!(parse_credentials("{\"access_token\":\"t\",\"access_token\":\"u\"}").is_none());
    // user_info without an email.
    assert!(parse_credentials("{\"access_token\":\"t\",\"user_info\":{}}").is_none());
    // Trailing garbage.
    assert!(parse_credentials("{\"access_token\":\"t\"} x").is_none());
}

#[test]
fn store_path_and_read_decoding() {
    let store = CredentialStore::new("/home/someone");
    assert_eq!(store.credentials_path, "/home/someone/.zos/oauth_creds.json");

    assert!(CredentialStore::decode_read(None) == Err(StoreError::NotFound));
    assert!(CredentialStore::decode_read(Some("{broken")) == Err(StoreError::Corrupt));
    let c = CredentialStore::decode_read(Some("{\"access_token\":\"T\"}")).unwrap();
    assert_eq!(c.access_token, "T");

    let record = full_record();
    let encoded = CredentialStore::encode(&record);
    let back = CredentialStore::decode_read(Some(&encoded)).unwrap();
    assert!(back == record);
}

#[test]
fn expiry_bounds_round_trip() {
    for v in [0i64, 1, -1, i64::MAX, i64::MIN, 1234567890123] {
        let c = Credentials {
            access_token: "t".to_string(),
            refresh_token: None,
            token_type: None,
            expiry_date: Some(v),
            user_info: None,
        };
        let back = parse_credentials(&render_credentials(&c)).unwrap();
        assert_eq!(back.expiry_date, Some(v));
    }
}

#[test]
fn token_response_parsing() {
    let tp = aichat::token_response::parse_token_response(
        "{\"access_token\":\"T1\",\"refresh_token\":\"R1\",\"token_type\":\"Bearer\",\
         \"expires_in\":3600,\"scope\":\"a b\"}",
    )
    .unwrap();
    assert_eq!(tp.access_token, "T1");
    assert_eq!(tp.refresh_token.as_deref(), Some("R1"));
    assert_eq!(tp.token_type.as_deref(), Some("Bearer"));
    assert_eq!(tp.expires_in, Some(3600));

    // Malformed bodies.
    assert!(aichat::token_response::parse_token_response("").is_none());
    assert!(aichat::token_response::parse_token_response("{}").is_none());
    assert!(
        aichat::token_response::parse_token_response("{\"error\":\"invalid_grant\"}").is_none()
    );
    assert!(aichat::token_response::parse_token_response("{\"access_token\":\"\"}").is_none());
}
