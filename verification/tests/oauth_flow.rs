use chatgpt_oauth::encoding::{pkce_challenge, random_urlsafe};
use chatgpt_oauth::json::{interval_from_json, IntervalError};
use chatgpt_oauth::oauth::{
    authorize_url, callback_code, code_exchange_form, device_page_url, device_poll_fields,
    device_poll_step, format_decimal, http_ok_response, loopback_callback, parse_callback,
    refresh_request_fields, CallbackError, LoopbackError, PollStep, LOOPBACK_PAGE,
    LOOPBACK_REDIRECT_URI,
};
use chatgpt_oauth::text::IntErrorKind;
use serde_json::Value;

fn pairs(v: &[(&str, &str)]) -> Vec<(String, String)> {
    v.iter().map(|(a, b)| (a.to_string(), b.to_string())).collect()
}

#[test]
fn pkce_challenge_matches_rfc7636_example() {
    assert_eq!(
        pkce_challenge("dBjftJeZ4CVP-mB92K27uhbUJU1p1r_wW1gFWFOEjXk"),
        "E9Melhoa2OwvFrEMTJguCHaoeK1t8URWbuGJSstw-cM"
    );
}

#[test]
fn random_tokens_are_unpadded_urlsafe() {
    let a = random_urlsafe(32);
    let b = random_urlsafe(32);
    assert_eq!(a.len(), 43);
    assert!(a.chars().all(|c| c.is_ascii_alphanumeric() || c == '-' || c == '_'));
    assert_ne!(a, b);
    assert_eq!(random_urlsafe(0), "");
    assert_eq!(random_urlsafe(1).len(), 2);
}

#[test]
fn authorize_url_carries_every_parameter() {
    let url = authorize_url(LOOPBACK_REDIRECT_URI, "ch-al_lenge", "st ate").unwrap();
    assert_eq!(
        url,
        "https://auth.openai.com/oauth/authorize?response_type=code\
         &client_id=app_EMoamEEZ73f0CkXaXp7hrann\
         &redirect_uri=http%3A%2F%2Flocalhost%3A1455%2Fauth%2Fcallback\
         &scope=openid+profile+email+offline_access+api.connectors.read+api.connectors.invoke\
         &code_challenge=ch-al_lenge&code_challenge_method=S256\
         &id_token_add_organizations=true&codex_cli_simplified_flow=true\
         &state=st+ate&originator=oh-my-grok"
    );
}

#[test]
fn callback_urls_are_decoded() {
    assert_eq!(
        parse_callback("  http://localhost:1455/auth/callback?state=s&code=a%20b+c&code=second \n").unwrap(),
        ("a b c".to_string(), Some("s".to_string()))
    );
    assert_eq!(
        parse_callback("http://localhost:1455/cb?code=only").unwrap(),
        ("only".to_string(), None)
    );
    assert_eq!(parse_callback("\t raw-code \r\n").unwrap(), ("raw-code".to_string(), None));
}

#[test]
fn callback_errors_are_reported() {
    assert_eq!(parse_callback("http://[broken/?code=x"), Err(CallbackError::InvalidUrl));
    assert_eq!(parse_callback("://nothing"), Err(CallbackError::InvalidUrl));
    assert_eq!(parse_callback("http://localhost/cb?state=x"), Err(CallbackError::MissingCode));
    assert_eq!(parse_callback("http://localhost/cb"), Err(CallbackError::MissingCode));
    assert_eq!(CallbackError::InvalidUrl.message(), "invalid OAuth callback URL");
    assert_eq!(CallbackError::MissingCode.message(), "OAuth callback did not include a code");
    assert_eq!(CallbackError::StateMismatch.message(), "ChatGPT login state mismatch");
}

#[test]
fn callback_state_must_match() {
    assert_eq!(
        callback_code("http://localhost:1455/auth/callback?code=c1&state=good", "good"),
        Ok("c1".to_string())
    );
    assert_eq!(
        callback_code("http://localhost:1455/auth/callback?code=c1&state=evil", "good"),
        Err(CallbackError::StateMismatch)
    );
    assert_eq!(callback_code("pasted-code", "good"), Ok("pasted-code".to_string()));
    assert_eq!(callback_code("http://h/?state=good", "good"), Err(CallbackError::MissingCode));
}

#[test]
fn loopback_request_gives_callback_url() {
    assert_eq!(
        loopback_callback(b"GET /auth/callback?code=1&state=2 HTTP/1.1\r\nHost: localhost\r\n\r\n"),
        Ok("http://localhost:1455/auth/callback?code=1&state=2".to_string())
    );
    assert_eq!(loopback_callback(b"  GET\t/x  HTTP/1.1"), Ok("http://localhost:1455/x".to_string()));
    // a bare carriage return is not a line ending, but it is whitespace
    assert_eq!(loopback_callback(b"GET /only\r"), Ok("http://localhost:1455/only".to_string()));
    assert_eq!(loopback_callback(b"GET\r\n/next HTTP/1.1"), Err(LoopbackError::NoTarget));
    assert_eq!(loopback_callback(b""), Err(LoopbackError::NoTarget));
    assert_eq!(loopback_callback(b"\n"), Err(LoopbackError::NoTarget));
    assert_eq!(loopback_callback(b"GET /\xff HTTP/1.1"), Err(LoopbackError::NotUtf8));
    assert_eq!(LoopbackError::NotUtf8.message(), "invalid OAuth callback");
    assert_eq!(LoopbackError::NoTarget.message(), "invalid OAuth callback request");
}

#[test]
fn loopback_answer_states_body_length() {
    let body = LOOPBACK_PAGE;
    let expected = format!(
        "HTTP/1.1 200 OK\r\nContent-Type: text/plain; charset=utf-8\r\nContent-Length: {}\r\nConnection: close\r\n\r\n{}",
        body.len(),
        body
    );
    assert_eq!(http_ok_response(body), expected);
    assert!(http_ok_response("é").contains("Content-Length: 2\r\n"));
    assert!(http_ok_response("").contains("Content-Length: 0\r\n"));
}

#[test]
fn decimal_formatting() {
    for n in [0usize, 7, 10, 50, 99, 100, 12345, usize::MAX] {
        assert_eq!(format_decimal(n), n.to_string());
    }
}

#[test]
fn device_polling_decisions() {
    assert_eq!(device_poll_step(200, 0, 5), PollStep::Approved);
    assert_eq!(device_poll_step(204, 2000, 5), PollStep::Approved);
    assert_eq!(device_poll_step(403, 10, 5), PollStep::Wait(5));
    assert_eq!(device_poll_step(404, 10, 0), PollStep::Wait(1));
    assert_eq!(device_poll_step(403, 899, 3), PollStep::Wait(3));
    assert_eq!(device_poll_step(403, 900, 3), PollStep::TimedOut);
    assert_eq!(device_poll_step(500, 10, 5), PollStep::Failed(500));
    assert_eq!(device_poll_step(301, 10, 5), PollStep::Failed(301));
}

#[test]
fn device_page_percent_encodes_code() {
    assert_eq!(
        device_page_url("AB CD-12_~.é/"),
        "https://auth.openai.com/codex/device?user_code=AB%20CD-12_~.%C3%A9%2F"
    );
}

#[test]
fn token_requests_name_their_fields() {
    assert_eq!(
        code_exchange_form("the-code", LOOPBACK_REDIRECT_URI, "the-verifier"),
        pairs(&[
            ("grant_type", "authorization_code"),
            ("code", "the-code"),
            ("redirect_uri", "http://localhost:1455/auth/callback"),
            ("client_id", "app_EMoamEEZ73f0CkXaXp7hrann"),
            ("code_verifier", "the-verifier"),
        ])
    );
    assert_eq!(
        refresh_request_fields("rt"),
        pairs(&[
            ("client_id", "app_EMoamEEZ73f0CkXaXp7hrann"),
            ("grant_type", "refresh_token"),
            ("refresh_token", "rt"),
        ])
    );
    assert_eq!(
        device_poll_fields("dev-1", "CODE-1"),
        pairs(&[("device_auth_id", "dev-1"), ("user_code", "CODE-1")])
    );
}

#[test]
fn polling_interval_from_string_or_number() {
    assert_eq!(interval_from_json(&Value::String("5".to_string())), Ok(5));
    assert_eq!(interval_from_json(&Value::String("+7".to_string())), Ok(7));
    assert_eq!(interval_from_json(&Value::from(9u64)), Ok(9));
    assert_eq!(
        interval_from_json(&Value::String("".to_string())),
        Err(IntervalError::Parse(IntErrorKind::Empty))
    );
    assert_eq!(
        interval_from_json(&Value::String("5s".to_string())),
        Err(IntervalError::Parse(IntErrorKind::InvalidDigit))
    );
    assert_eq!(
        interval_from_json(&Value::String("99999999999999999999".to_string())),
        Err(IntervalError::Parse(IntErrorKind::PosOverflow))
    );
    assert_eq!(interval_from_json(&Value::from(-3i64)), Err(IntervalError::Invalid));
    assert_eq!(interval_from_json(&Value::from(2.5f64)), Err(IntervalError::Invalid));
    assert_eq!(interval_from_json(&Value::Bool(true)), Err(IntervalError::Invalid));
    assert_eq!(interval_from_json(&Value::Null), Err(IntervalError::Invalid));
}
