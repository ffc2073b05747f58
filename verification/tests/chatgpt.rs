use chatgpt_oauth::oauth::{authorize_url, parse_callback};

#[test]
fn parses_redirect_and_bare_code() {
    assert_eq!(
        parse_callback("http://localhost:1455/auth/callback?code=abc&state=xyz").unwrap(),
        ("abc".to_string(), Some("xyz".to_string()))
    );
    assert_eq!(parse_callback("abc").unwrap(), ("abc".to_string(), None));
}

#[test]
fn authorize_url_uses_codex_pkce_contract() {
    let url = authorize_url("http://localhost:1455/auth/callback", "challenge", "state")
        .expect("static OAuth URL");
    assert!(url.contains("client_id=app_EMoamEEZ73f0CkXaXp7hrann"));
    assert!(url.contains("code_challenge=challenge"));
    assert!(url.contains("originator=oh-my-grok"));
}
