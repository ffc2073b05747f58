use base64::Engine as _;
use chatgpt_oauth::credentials::{
    credentials_from_response, credentials_from_response_at, is_configured, is_fresh, now_secs,
    Credentials, CredentialsError, LoadError, TokenResponse,
};
use chatgpt_oauth::jwt::{jwt_claim, jwt_claim_i64, jwt_nested_claim, jwt_payload, payload_segment};

fn token(claims: &str) -> String {
    format!(
        "eyJhbGciOiJub25lIn0.{}.c2ln",
        base64::engine::general_purpose::URL_SAFE_NO_PAD.encode(claims)
    )
}

fn previous() -> Credentials {
    Credentials {
        access_token: "old-access".to_string(),
        refresh_token: "old-refresh".to_string(),
        id_token: "old-id".to_string(),
        account_id: Some("acct-old".to_string()),
        expires_at: 10,
    }
}

#[test]
fn payload_segment_is_second_dot_field() {
    assert_eq!(payload_segment("a.b.c"), Some("b"));
    assert_eq!(payload_segment("a.b"), Some("b"));
    assert_eq!(payload_segment("a."), Some(""));
    assert_eq!(payload_segment(".x.y.z"), Some("x"));
    assert_eq!(payload_segment("abc"), None);
    assert_eq!(payload_segment(""), None);
}

#[test]
fn jwt_claims_are_read_from_the_payload() {
    let t = token(r#"{"sub":"u1","exp":1700000000,"https://api.openai.com/auth":{"chatgpt_account_id":"acct-9"}}"#);
    assert_eq!(jwt_claim(&t, "sub"), Some("u1".to_string()));
    assert_eq!(jwt_claim(&t, "exp"), None);
    assert_eq!(jwt_claim_i64(&t, "exp"), Some(1700000000));
    assert_eq!(jwt_claim_i64(&t, "sub"), None);
    assert_eq!(jwt_claim(&t, "missing"), None);
    assert_eq!(
        jwt_nested_claim(&t, "https://api.openai.com/auth", "chatgpt_account_id"),
        Some("acct-9".to_string())
    );
    assert_eq!(jwt_nested_claim(&t, "sub", "x"), None);
    assert!(jwt_payload(&t).unwrap().is_object());
}

#[test]
fn jwt_claims_reject_malformed_tokens() {
    // no payload segment
    assert_eq!(jwt_claim("opaque-token", "sub"), None);
    // padded base64 is refused by the unpadded decoder
    assert_eq!(jwt_claim("h.eyJzdWIiOiJ1In0=.s", "sub"), None);
    assert_eq!(jwt_claim("h.eyJzdWIiOiJ1In0.s", "sub"), Some("u".to_string()));
    // the standard alphabet is not the URL-safe one
    assert_eq!(jwt_payload("h.+/8.s"), None);
    // not JSON
    assert!(jwt_payload(&format!("h.{}.s", base64::engine::general_purpose::URL_SAFE_NO_PAD.encode("not json"))).is_none());
    // JSON but not an object
    let t = token("[1,2]");
    assert!(jwt_payload(&t).is_some());
    assert_eq!(jwt_claim(&t, "sub"), None);
}

#[test]
fn jwt_integer_claims_must_fit_i64() {
    assert_eq!(jwt_claim_i64(&token(r#"{"exp":-5}"#), "exp"), Some(-5));
    assert_eq!(jwt_claim_i64(&token(r#"{"exp":9223372036854775807}"#), "exp"), Some(i64::MAX));
    assert_eq!(jwt_claim_i64(&token(r#"{"exp":9223372036854775808}"#), "exp"), None);
    assert_eq!(jwt_claim_i64(&token(r#"{"exp":1.5}"#), "exp"), None);
    assert_eq!(jwt_claim_i64(&token(r#"{"exp":"12"}"#), "exp"), None);
}

#[test]
fn sign_in_needs_access_and_refresh_tokens() {
    let none = TokenResponse { id_token: None, access_token: None, refresh_token: None };
    assert_eq!(
        credentials_from_response_at(none, None, 0).unwrap_err(),
        CredentialsError::MissingAccessToken
    );
    let access_only = TokenResponse {
        id_token: Some("i".to_string()),
        access_token: Some("a".to_string()),
        refresh_token: None,
    };
    assert_eq!(
        credentials_from_response_at(access_only, None, 0).unwrap_err(),
        CredentialsError::MissingRefreshToken
    );
}

#[test]
fn sign_in_takes_tokens_and_defaults() {
    let response = TokenResponse {
        id_token: None,
        access_token: Some("plain-access".to_string()),
        refresh_token: Some("r".to_string()),
    };
    let c = credentials_from_response_at(response, None, 1_000).unwrap();
    assert_eq!(c.access_token, "plain-access");
    assert_eq!(c.refresh_token, "r");
    assert_eq!(c.id_token, "");
    assert_eq!(c.account_id, None);
    assert_eq!(c.expires_at, 4_600);
    assert!(is_fresh(&c, 1_000));
}

#[test]
fn refresh_keeps_what_the_response_omits() {
    let response = TokenResponse {
        id_token: None,
        access_token: Some("new-access".to_string()),
        refresh_token: None,
    };
    let c = credentials_from_response_at(response, Some(previous()), 50).unwrap();
    assert_eq!(c.access_token, "new-access");
    assert_eq!(c.refresh_token, "old-refresh");
    assert_eq!(c.id_token, "old-id");
    assert_eq!(c.account_id, Some("acct-old".to_string()));
    assert_eq!(c.expires_at, 3_650);

    let empty = TokenResponse { id_token: None, access_token: None, refresh_token: None };
    let kept = credentials_from_response_at(empty, Some(previous()), 0).unwrap();
    assert_eq!(kept.access_token, "old-access");
    assert_eq!(kept.refresh_token, "old-refresh");
}

#[test]
fn account_id_prefers_namespaced_claims() {
    let id = token(r#"{"chatgpt_account_id":"flat-id","https://api.openai.com/auth":{"chatgpt_account_id":"ns-id"}}"#);
    let access = token(r#"{"exp":77,"https://api.openai.com/auth":{"chatgpt_account_id":"ns-access"},"chatgpt_account_id":"flat-access"}"#);
    let response = TokenResponse {
        id_token: Some(id.clone()),
        access_token: Some(access.clone()),
        refresh_token: Some("r".to_string()),
    };
    let c = credentials_from_response_at(response, Some(previous()), 0).unwrap();
    assert_eq!(c.account_id, Some("ns-id".to_string()));
    assert_eq!(c.expires_at, 77);

    let id_flat = token(r#"{"chatgpt_account_id":"flat-id"}"#);
    let response = TokenResponse {
        id_token: Some(id_flat.clone()),
        access_token: Some(access.clone()),
        refresh_token: Some("r".to_string()),
    };
    let c = credentials_from_response_at(response, None, 0).unwrap();
    assert_eq!(c.account_id, Some("ns-access".to_string()));

    let access_flat = token(r#"{"chatgpt_account_id":"flat-access"}"#);
    let response = TokenResponse {
        id_token: Some(id_flat),
        access_token: Some(access_flat.clone()),
        refresh_token: Some("r".to_string()),
    };
    let c = credentials_from_response_at(response, None, 0).unwrap();
    assert_eq!(c.account_id, Some("flat-id".to_string()));

    let response = TokenResponse {
        id_token: Some("not-a-jwt".to_string()),
        access_token: Some(access_flat),
        refresh_token: Some("r".to_string()),
    };
    let c = credentials_from_response_at(response, None, 0).unwrap();
    assert_eq!(c.account_id, Some("flat-access".to_string()));
}

#[test]
fn assumed_expiry_wraps_like_release_arithmetic() {
    let response = TokenResponse {
        id_token: None,
        access_token: Some("a".to_string()),
        refresh_token: Some("r".to_string()),
    };
    let c = credentials_from_response_at(response, None, i64::MAX).unwrap();
    assert_eq!(c.expires_at, i64::MAX.wrapping_add(3600));
}

#[test]
fn freshness_keeps_a_five_minute_margin() {
    let mut c = previous();
    c.expires_at = 1_000;
    assert!(is_fresh(&c, 699));
    assert!(!is_fresh(&c, 700));
    assert!(!is_fresh(&c, 2_000));
}

#[test]
fn credentials_from_response_reads_the_clock() {
    let response = TokenResponse {
        id_token: None,
        access_token: Some("a".to_string()),
        refresh_token: Some("r".to_string()),
    };
    let before = now_secs();
    let c = credentials_from_response(response, None).unwrap();
    let after = now_secs();
    assert!(c.expires_at >= before + 3600 && c.expires_at <= after + 3600);
    assert!(is_fresh(&c, after));
}

#[test]
fn configured_when_credentials_load() {
    assert!(is_configured(&Ok(previous())));
    assert!(!is_configured(&Err(LoadError::Invalid)));
    assert!(!is_configured(&Err(LoadError::NotFound("/nowhere/openai-auth.json".to_string()))));
}

#[test]
fn credential_errors_have_messages() {
    let response = TokenResponse {
        id_token: Some("i".to_string()),
        access_token: None,
        refresh_token: Some("r".to_string()),
    };
    let err = credentials_from_response(response, None).unwrap_err();
    assert_eq!(err.message(), "OAuth response did not include an access token");
    let response = TokenResponse {
        id_token: None,
        access_token: Some("a".to_string()),
        refresh_token: None,
    };
    let err = credentials_from_response(response, None).unwrap_err();
    assert_eq!(err.message(), "OAuth response did not include a refresh token");
    assert_eq!(
        LoadError::NotFound("/home/u/.oh-my-grok/openai-auth.json".to_string()).message(),
        "ChatGPT credentials not found at /home/u/.oh-my-grok/openai-auth.json"
    );
    assert_eq!(LoadError::Invalid.message(), "invalid ChatGPT credential file");
}
