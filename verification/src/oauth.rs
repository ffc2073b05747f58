//! The OAuth protocol of the ChatGPT sign-in: the authorization URL with
//! PKCE, the browser callback, the loopback listener's request and answer,
//! the device-code flow, and the token endpoint requests.

use vstd::prelude::*;
use vstd::string::StringExecFns;
use vstd::string::StringSliceAdditionalSpecFns;

use crate::encoding::{percent_encoded, pkce_challenge_spec, url_encode};
use crate::text::{
    contains, contains_seq, find_char, is_white_space, lemma_scan_to, push_char, scan_to,
    skip_white_space, trim, trimmed, white_space,
};

verus! {

/// The identifier of the ChatGPT sign-in method.
pub const AUTH_METHOD_ID: &'static str = "openai-codex";

/// The OAuth client of the Codex CLI.
pub const CLIENT_ID: &'static str = "app_EMoamEEZ73f0CkXaXp7hrann";

/// The base URL of the Codex Responses backend.
pub const CODEX_BASE_URL: &'static str = "https://chatgpt.com/backend-api/codex";

/// The OAuth issuer.
pub const ISSUER: &'static str = "https://auth.openai.com";

/// The authorization endpoint of the issuer.
pub const AUTHORIZE_ENDPOINT: &'static str = "https://auth.openai.com/oauth/authorize";

/// The token endpoint of the issuer.
pub const TOKEN_ENDPOINT: &'static str = "https://auth.openai.com/oauth/token";

/// Where a device code is requested.
pub const DEVICE_USERCODE_ENDPOINT: &'static str =
    "https://auth.openai.com/api/accounts/deviceauth/usercode";

/// Where a device sign-in is polled.
pub const DEVICE_TOKEN_ENDPOINT: &'static str =
    "https://auth.openai.com/api/accounts/deviceauth/token";

/// The redirect URI that a device sign-in exchanges its code with.
pub const DEVICE_REDIRECT_URI: &'static str = "https://auth.openai.com/deviceauth/callback";

/// The page where a user enters a device code, before the code itself.
pub const DEVICE_PAGE_PREFIX: &'static str = "https://auth.openai.com/codex/device?user_code=";

/// The local port that the browser sign-in listens on.
pub const CALLBACK_PORT: u16 = 1455;

/// The origin of the local listener.
pub const LOOPBACK_ORIGIN: &'static str = "http://localhost:1455";

/// The redirect URI of the browser sign-in.
pub const LOOPBACK_REDIRECT_URI: &'static str = "http://localhost:1455/auth/callback";

/// The scopes that the sign-in asks for.
pub const SCOPES: &'static str =
    "openid profile email offline_access api.connectors.read api.connectors.invoke";

/// The body of the answer that the local listener sends the browser.
pub const LOOPBACK_PAGE: &'static str = "ChatGPT login complete. You can close this window.";

/// How long a sign-in may wait for the user, in seconds.
pub const LOGIN_TIMEOUT_SECS: u64 = 900;

#[verifier::external_type_specification]
#[verifier::external_body]
pub struct ExUrlParseError(url::ParseError);

/// Query pairs as plain values.
pub open spec fn pairs_view(p: Seq<(String, String)>) -> Seq<(Seq<char>, Seq<char>)> {
    p.map_values(|x: (String, String)| (x.0@, x.1@))
}

/// A pair of new strings.
pub fn pair(name: &str, value: &str) -> (r: (String, String))
    ensures
        r.0@ == name@,
        r.1@ == value@,
{
    (name.to_owned(), value.to_owned())
}

/// The serialization of the URL that `url::Url::parse_with_params` makes
/// of `base` and `params`, or `None` where `base` does not parse.
pub uninterp spec fn url_with_params(
    base: Seq<char>,
    params: Seq<(Seq<char>, Seq<char>)>,
) -> Option<Seq<char>>;

/// Trusted: `url::Url::parse_with_params`, which parses `base` and appends
/// each pair, form-urlencoded, to its query; its result is turned into the
/// URL's serialization. What it computes is left to the name
/// `url_with_params`.
#[verifier::external_body]
fn parse_with_params(base: &str, params: &Vec<(String, String)>) -> (r: Result<String, url::ParseError>)
    ensures
        match r {
            Ok(s) => url_with_params(base@, pairs_view(params@)) == Some(s@),
            Err(_) => url_with_params(base@, pairs_view(params@)) is None,
        },
{
    url::Url::parse_with_params(base, params.iter()).map(String::from)
}

/// The query of the authorization request, in order.
pub open spec fn authorize_params(
    redirect_uri: Seq<char>,
    challenge: Seq<char>,
    state: Seq<char>,
) -> Seq<(Seq<char>, Seq<char>)> {
    seq![
        ("response_type"@, "code"@),
        ("client_id"@, CLIENT_ID@),
        ("redirect_uri"@, redirect_uri),
        ("scope"@, SCOPES@),
        ("code_challenge"@, challenge),
        ("code_challenge_method"@, "S256"@),
        ("id_token_add_organizations"@, "true"@),
        ("codex_cli_simplified_flow"@, "true"@),
        ("state"@, state),
        ("originator"@, "oh-my-grok"@),
    ]
}

/// The authorization URL that sends the user to sign in: the
/// authorization endpoint with the PKCE challenge, the state and the
/// redirect URI in its query. `None` where the URL library refuses the
/// endpoint.
pub fn authorize_url(redirect_uri: &str, challenge: &str, state: &str) -> (r: Option<String>)
    ensures
        match r {
            Some(u) => url_with_params(
                AUTHORIZE_ENDPOINT@,
                authorize_params(redirect_uri@, challenge@, state@),
            ) == Some(u@),
            None => url_with_params(
                AUTHORIZE_ENDPOINT@,
                authorize_params(redirect_uri@, challenge@, state@),
            ) is None,
        },
{
    let mut params: Vec<(String, String)> = Vec::new();
    params.push(pair("response_type", "code"));
    params.push(pair("client_id", CLIENT_ID));
    params.push(pair("redirect_uri", redirect_uri));
    params.push(pair("scope", SCOPES));
    params.push(pair("code_challenge", challenge));
    params.push(pair("code_challenge_method", "S256"));
    params.push(pair("id_token_add_organizations", "true"));
    params.push(pair("codex_cli_simplified_flow", "true"));
    params.push(pair("state", state));
    params.push(pair("originator", "oh-my-grok"));
    assert(pairs_view(params@) =~= authorize_params(redirect_uri@, challenge@, state@));
    match parse_with_params(AUTHORIZE_ENDPOINT, &params) {
        Ok(u) => Some(u),
        Err(_) => None,
    }
}


/// The query of the URL that `url::Url::parse` makes of `input`: `None`
/// where it does not parse, `Some(None)` for a URL without a query.
pub uninterp spec fn url_query_of(input: Seq<char>) -> Option<Option<Seq<char>>>;

/// Trusted: `url::Url::parse`, of whose result only the query
/// (`Url::query`) is kept. What it computes is left to the name
/// `url_query_of`.
#[verifier::external_body]
fn parse_url_query(input: &str) -> (r: Result<Option<String>, url::ParseError>)
    ensures
        match r {
            Ok(q) => url_query_of(input@) == Some(
                match q {
                    Some(q) => Some(q@),
                    None => None,
                },
            ),
            Err(_) => url_query_of(input@) is None,
        },
{
    url::Url::parse(input).map(|u| u.query().map(String::from))
}

/// The name-value pairs of an `application/x-www-form-urlencoded` text, in
/// order, as `form_urlencoded::parse` decodes them.
pub uninterp spec fn form_pairs(query: Seq<u8>) -> Seq<(Seq<char>, Seq<char>)>;

/// Trusted: `form_urlencoded::parse` (which `url::Url::query_pairs` applies
/// to the query), with each decoded pair made owned. What it decodes is
/// left to the name `form_pairs`.
#[verifier::external_body]
fn parse_form_pairs(query: &[u8]) -> (r: Vec<(String, String)>)
    ensures
        pairs_view(r@) == form_pairs(query@),
{
    url::form_urlencoded::parse(query).into_owned().collect()
}

/// The value of the first pair named `name`.
pub open spec fn first_value(pairs: Seq<(Seq<char>, Seq<char>)>, name: Seq<char>) -> Option<
    Seq<char>,
>
    decreases pairs.len(),
{
    if pairs.len() == 0 {
        None
    } else if pairs[0].0 == name {
        Some(pairs[0].1)
    } else {
        first_value(pairs.drop_first(), name)
    }
}

/// Finds the value of the first pair named `name`.
pub fn find_pair(pairs: &Vec<(String, String)>, name: &str) -> (r: Option<String>)
    ensures
        match r {
            Some(v) => first_value(pairs_view(pairs@), name@) == Some(v@),
            None => first_value(pairs_view(pairs@), name@) is None,
        },
{
    let key = name.to_owned();
    let mut i: usize = 0;
    assert(pairs_view(pairs@).skip(0) =~= pairs_view(pairs@));
    while i < pairs.len()
        invariant
            i <= pairs@.len(),
            key@ == name@,
            first_value(pairs_view(pairs@), name@) == first_value(
                pairs_view(pairs@).skip(i as int),
                name@,
            ),
        decreases pairs.len() - i,
    {
        let ghost rest = pairs_view(pairs@).skip(i as int);
        assert(rest[0] == (pairs@[i as int].0@, pairs@[i as int].1@));
        assert(rest.drop_first() =~= pairs_view(pairs@).skip(i + 1));
        if pairs[i].0 == key {
            return Some(pairs[i].1.clone());
        }
        i = i + 1;
    }
    None
}

/// Why a pasted or received OAuth callback is refused.
#[derive(Debug, Clone, Copy, PartialEq, Eq)]
pub enum CallbackError {
    /// The callback looks like a URL but does not parse as one.
    InvalidUrl,
    /// The callback URL has no `code` in its query.
    MissingCode,
    /// The callback's `state` is not the one the sign-in sent.
    StateMismatch,
}

impl CallbackError {
    /// The message that reports the error.
    pub fn message(&self) -> (r: String)
        ensures
            r@ == callback_error_text(*self),
    {
        match self {
            CallbackError::InvalidUrl => "invalid OAuth callback URL".to_owned(),
            CallbackError::MissingCode => "OAuth callback did not include a code".to_owned(),
            CallbackError::StateMismatch => "ChatGPT login state mismatch".to_owned(),
        }
    }
}

/// The message of each callback error.
pub open spec fn callback_error_text(e: CallbackError) -> Seq<char> {
    match e {
        CallbackError::InvalidUrl => "invalid OAuth callback URL"@,
        CallbackError::MissingCode => "OAuth callback did not include a code"@,
        CallbackError::StateMismatch => "ChatGPT login state mismatch"@,
    }
}

/// What a callback gives: a text without `://` (after trimming) is a bare
/// authorization code with no state; otherwise it is a URL whose query
/// must hold a `code`, and may hold a `state`.
pub open spec fn parse_callback_spec(input: Seq<char>) -> Result<
    (Seq<char>, Option<Seq<char>>),
    CallbackError,
> {
    let t = trimmed(input);
    if !contains_seq(t, "://"@) {
        Ok((t, None))
    } else {
        match url_query_of(t) {
            None => Err(CallbackError::InvalidUrl),
            Some(q) => {
                let pairs = form_pairs(
                    vstd::utf8::encode_utf8(
                        match q {
                            Some(q) => q,
                            None => Seq::empty(),
                        },
                    ),
                );
                match first_value(pairs, "code"@) {
                    None => Err(CallbackError::MissingCode),
                    Some(code) => Ok((code, first_value(pairs, "state"@))),
                }
            },
        }
    }
}

/// The view of a parsed callback.
pub open spec fn callback_view(r: Result<(String, Option<String>), CallbackError>) -> Result<
    (Seq<char>, Option<Seq<char>>),
    CallbackError,
> {
    match r {
        Ok((c, s)) => Ok(
            (
                c@,
                match s {
                    Some(s) => Some(s@),
                    None => None,
                },
            ),
        ),
        Err(e) => Err(e),
    }
}

/// Reads an OAuth callback, either the URL that the browser was sent to or
/// a bare authorization code pasted by the user: gives the code and, for a
/// URL, its state.
pub fn parse_callback(input: &str) -> (r: Result<(String, Option<String>), CallbackError>)
    ensures
        callback_view(r) == parse_callback_spec(input@),
{
    let input = trim(input);
    if !contains(input, "://") {
        return Ok((input.to_owned(), None));
    }
    let query = match parse_url_query(input) {
        Ok(q) => q,
        Err(_) => return Err(CallbackError::InvalidUrl),
    };
    let pairs = match &query {
        Some(q) => parse_form_pairs(q.as_str().as_bytes()),
        None => {
            let no_query: Vec<u8> = Vec::new();
            assert(no_query@ =~= vstd::utf8::encode_utf8(Seq::<char>::empty()));
            parse_form_pairs(no_query.as_slice())
        },
    };
    let code = match find_pair(&pairs, "code") {
        Some(c) => c,
        None => return Err(CallbackError::MissingCode),
    };
    let state = find_pair(&pairs, "state");
    Ok((code, state))
}

/// The code of a callback whose state, where it carries one, is
/// `expected_state`.
pub open spec fn callback_code_spec(input: Seq<char>, expected_state: Seq<char>) -> Result<
    Seq<char>,
    CallbackError,
> {
    match parse_callback_spec(input) {
        Err(e) => Err(e),
        Ok((code, state)) => match state {
            Some(s) => if s != expected_state {
                Err(CallbackError::StateMismatch)
            } else {
                Ok(code)
            },
            None => Ok(code),
        },
    }
}

/// Reads the callback of a browser sign-in that sent `expected_state`: a
/// callback that carries another state is refused.
pub fn callback_code(input: &str, expected_state: &str) -> (r: Result<String, CallbackError>)
    ensures
        match r {
            Ok(c) => callback_code_spec(input@, expected_state@) == Ok::<
                Seq<char>,
                CallbackError,
            >(c@),
            Err(e) => callback_code_spec(input@, expected_state@) == Err::<
                Seq<char>,
                CallbackError,
            >(e),
        },
{
    let (code, state) = match parse_callback(input) {
        Ok(p) => p,
        Err(e) => return Err(e),
    };
    match state {
        Some(s) => {
            let expected = expected_state.to_owned();
            if s != expected {
                Err(CallbackError::StateMismatch)
            } else {
                Ok(code)
            }
        },
        None => Ok(code),
    }
}


#[verifier::external_type_specification]
#[verifier::external_body]
pub struct ExUtf8Error(core::str::Utf8Error);

/// Trusted: `std::str::from_utf8`, which accepts exactly the valid UTF-8
/// byte sequences and gives the text they encode.
#[verifier::external_body]
fn str_from_utf8(bytes: &[u8]) -> (r: Result<&str, core::str::Utf8Error>)
    ensures
        match r {
            Ok(s) => vstd::utf8::valid_utf8(bytes@) && s@ == vstd::utf8::decode_utf8(bytes@),
            Err(_) => !vstd::utf8::valid_utf8(bytes@),
        },
{
    std::str::from_utf8(bytes)
}

/// The first line of `s`, as `s.lines().next()` gives it: the text before
/// the first `\n` without a `\r` just before it, or all of a text without
/// `\n`; an empty text has no line.
pub open spec fn first_line(s: Seq<char>) -> Option<Seq<char>> {
    if s.len() == 0 {
        None
    } else {
        let i = scan_to(s, '\n', 0);
        if i >= s.len() {
            Some(s)
        } else if i > 0 && s[i - 1] == '\r' {
            Some(s.take(i - 1))
        } else {
            Some(s.take(i))
        }
    }
}

/// The index of the first whitespace at or after `i` (the length of `s`
/// when there is none).
pub open spec fn word_end(s: Seq<char>, i: int) -> int
    decreases s.len() - i,
{
    if i >= s.len() {
        s.len() as int
    } else if is_white_space(s[i]) {
        i
    } else {
        word_end(s, i + 1)
    }
}

proof fn lemma_word_bounds(s: Seq<char>, i: int)
    requires
        0 <= i <= s.len(),
    ensures
        i <= word_end(s, i) <= s.len(),
        i <= skip_white_space(s, i) <= s.len(),
    decreases s.len() - i,
{
    if i < s.len() {
        lemma_word_bounds(s, i + 1);
    }
}

/// The second whitespace-separated word of `s`, as
/// `s.split_whitespace().nth(1)` gives it.
pub open spec fn second_word(s: Seq<char>) -> Option<Seq<char>> {
    let a0 = skip_white_space(s, 0);
    if a0 >= s.len() {
        None
    } else {
        let a1 = skip_white_space(s, word_end(s, a0));
        if a1 >= s.len() {
            None
        } else {
            Some(s.subrange(a1, word_end(s, a1)))
        }
    }
}

/// Computes `skip_white_space(s@, i)`.
fn skip_spaces(s: &str, i: usize) -> (r: usize)
    requires
        i <= s@.len(),
    ensures
        r == skip_white_space(s@, i as int),
{
    let n = s.unicode_len();
    let mut j = i;
    while j < n && white_space(s.get_char(j))
        invariant
            n == s@.len(),
            i <= j <= n,
            skip_white_space(s@, i as int) == skip_white_space(s@, j as int),
        decreases n - j,
    {
        j = j + 1;
    }
    j
}

/// Computes `word_end(s@, i)`.
fn skip_word(s: &str, i: usize) -> (r: usize)
    requires
        i <= s@.len(),
    ensures
        r == word_end(s@, i as int),
{
    let n = s.unicode_len();
    let mut j = i;
    while j < n && !white_space(s.get_char(j))
        invariant
            n == s@.len(),
            i <= j <= n,
            word_end(s@, i as int) == word_end(s@, j as int),
        decreases n - j,
    {
        j = j + 1;
    }
    j
}

/// The request target of an HTTP request: the second word of its first
/// line.
pub open spec fn request_target(request: Seq<char>) -> Option<Seq<char>> {
    match first_line(request) {
        None => None,
        Some(line) => second_word(line),
    }
}

/// Finds `request_target(request@)`.
pub fn request_target_of(request: &str) -> (r: Option<&str>)
    ensures
        match r {
            Some(t) => request_target(request@) == Some(t@),
            None => request_target(request@) is None,
        },
{
    let n = request.unicode_len();
    if n == 0 {
        return None;
    }
    let i = find_char(request, '\n', 0);
    proof {
        lemma_scan_to(request@, '\n', 0);
    }
    let line = if i >= n {
        request
    } else if i > 0 && request.get_char(i - 1) == '\r' {
        request.substring_char(0, i - 1)
    } else {
        request.substring_char(0, i)
    };
    assert(first_line(request@) == Some(line@)) by {
        if i < n {
            assert(request@.take(i as int) =~= request@.subrange(0, i as int));
            assert(request@.take(i - 1) =~= request@.subrange(0, i - 1));
        }
    }
    let m = line.unicode_len();
    let a0 = skip_spaces(line, 0);
    if a0 >= m {
        return None;
    }
    proof {
        lemma_word_bounds(line@, a0 as int);
    }
    let e0 = skip_word(line, a0);
    proof {
        lemma_word_bounds(line@, e0 as int);
    }
    let a1 = skip_spaces(line, e0);
    if a1 >= m {
        return None;
    }
    proof {
        lemma_word_bounds(line@, a1 as int);
    }
    let e1 = skip_word(line, a1);
    Some(line.substring_char(a1, e1))
}

/// Why a request received by the local listener is not a sign-in callback.
#[derive(Debug, Clone, Copy, PartialEq, Eq)]
pub enum LoopbackError {
    /// The request is not valid UTF-8.
    NotUtf8,
    /// The request has no request line with a target.
    NoTarget,
}

impl LoopbackError {
    /// The message that reports the error.
    pub fn message(&self) -> (r: String)
        ensures
            r@ == loopback_error_text(*self),
    {
        match self {
            LoopbackError::NotUtf8 => "invalid OAuth callback".to_owned(),
            LoopbackError::NoTarget => "invalid OAuth callback request".to_owned(),
        }
    }
}

/// The message of each listener error.
pub open spec fn loopback_error_text(e: LoopbackError) -> Seq<char> {
    match e {
        LoopbackError::NotUtf8 => "invalid OAuth callback"@,
        LoopbackError::NoTarget => "invalid OAuth callback request"@,
    }
}

/// The callback URL that a request to the local listener carries: the
/// listener's origin followed by the request target.
pub open spec fn loopback_callback_spec(request: Seq<u8>) -> Result<Seq<char>, LoopbackError> {
    if !vstd::utf8::valid_utf8(request) {
        Err(LoopbackError::NotUtf8)
    } else {
        match request_target(vstd::utf8::decode_utf8(request)) {
            None => Err(LoopbackError::NoTarget),
            Some(t) => Ok(LOOPBACK_ORIGIN@ + t),
        }
    }
}

/// Reads the callback URL from the bytes of a request to the local
/// listener.
pub fn loopback_callback(request: &[u8]) -> (r: Result<String, LoopbackError>)
    ensures
        match r {
            Ok(u) => loopback_callback_spec(request@) == Ok::<Seq<char>, LoopbackError>(u@),
            Err(e) => loopback_callback_spec(request@) == Err::<Seq<char>, LoopbackError>(e),
        },
{
    let text = match str_from_utf8(request) {
        Ok(t) => t,
        Err(_) => return Err(LoopbackError::NotUtf8),
    };
    match request_target_of(text) {
        None => Err(LoopbackError::NoTarget),
        Some(target) => {
            let mut url = LOOPBACK_ORIGIN.to_owned();
            url.append(target);
            Ok(url)
        },
    }
}

/// The decimal digit character of `d < 10`.
pub open spec fn digit_char(d: int) -> char {
    ('0' as int + d) as char
}

/// The decimal form of `n`, without leading zeros.
pub open spec fn decimal(n: nat) -> Seq<char>
    decreases n,
{
    if n < 10 {
        seq![digit_char(n as int)]
    } else {
        decimal(n / 10).push(digit_char((n % 10) as int))
    }
}

/// Writes `n` in decimal.
pub fn format_decimal(n: usize) -> (r: String)
    ensures
        r@ == decimal(n as nat),
    decreases n,
{
    let d = ((n % 10) as u8 + 48) as char;
    if n < 10 {
        let mut s = String::new();
        push_char(&mut s, d);
        assert(s@ =~= seq![digit_char(n as int)]);
        s
    } else {
        let mut s = format_decimal(n / 10);
        push_char(&mut s, d);
        s
    }
}

/// The HTTP response that answers a request with a plain-text `body`,
/// whose `Content-Length` is the byte length of the body.
pub open spec fn http_ok_text(body: Seq<char>) -> Seq<char> {
    "HTTP/1.1 200 OK\r\nContent-Type: text/plain; charset=utf-8\r\nContent-Length: "@ + decimal(
        vstd::utf8::encode_utf8(body).len(),
    ) + "\r\nConnection: close\r\n\r\n"@ + body
}

/// Writes the HTTP response that answers a request with `body`.
pub fn http_ok_response(body: &str) -> (r: String)
    ensures
        r@ == http_ok_text(body@),
{
    let mut r = "HTTP/1.1 200 OK\r\nContent-Type: text/plain; charset=utf-8\r\nContent-Length: ".to_owned();
    let len = format_decimal(body.as_bytes().len());
    r.append(len.as_str());
    r.append("\r\nConnection: close\r\n\r\n");
    r.append(body);
    r
}

/// What the device-code flow does after one poll of the token endpoint.
#[derive(Debug, Clone, Copy, PartialEq, Eq)]
pub enum PollStep {
    /// The user approved the sign-in: read the token.
    Approved,
    /// The endpoint refused the sign-in with this HTTP status.
    Failed(u16),
    /// The sign-in has waited too long.
    TimedOut,
    /// Still pending: poll again after this many seconds.
    Wait(u64),
}

/// The step after a poll answered with HTTP `status`, `elapsed_secs` seconds
/// into the sign-in, with the polling `interval` that the server asked for:
/// a success status ends the flow, a status other than 403 or 404 fails it,
/// fifteen minutes end it, and otherwise the flow waits the interval but at
/// least a second.
pub open spec fn poll_step_spec(status: u16, elapsed_secs: u64, interval: u64) -> PollStep {
    if 200 <= status <= 299 {
        PollStep::Approved
    } else if status != 403 && status != 404 {
        PollStep::Failed(status)
    } else if elapsed_secs >= LOGIN_TIMEOUT_SECS {
        PollStep::TimedOut
    } else {
        PollStep::Wait(
            if interval >= 1 {
                interval
            } else {
                1
            },
        )
    }
}

/// Decides the step of the device-code flow after a poll.
pub fn device_poll_step(status: u16, elapsed_secs: u64, interval: u64) -> (r: PollStep)
    ensures
        r == poll_step_spec(status, elapsed_secs, interval),
{
    if 200 <= status && status <= 299 {
        PollStep::Approved
    } else if status != 403 && status != 404 {
        PollStep::Failed(status)
    } else if elapsed_secs >= LOGIN_TIMEOUT_SECS {
        PollStep::TimedOut
    } else {
        PollStep::Wait(
            if interval >= 1 {
                interval
            } else {
                1
            },
        )
    }
}

/// The page where the user enters `user_code`, with the code
/// percent-encoded into its query.
pub fn device_page_url(user_code: &str) -> (r: String)
    ensures
        r@ == DEVICE_PAGE_PREFIX@ + percent_encoded(user_code.spec_bytes()),
{
    let mut r = DEVICE_PAGE_PREFIX.to_owned();
    let code = url_encode(user_code);
    r.append(code.as_str());
    r
}

/// The form that exchanges an authorization code for tokens.
pub open spec fn code_exchange_params(
    code: Seq<char>,
    redirect_uri: Seq<char>,
    verifier: Seq<char>,
) -> Seq<(Seq<char>, Seq<char>)> {
    seq![
        ("grant_type"@, "authorization_code"@),
        ("code"@, code),
        ("redirect_uri"@, redirect_uri),
        ("client_id"@, CLIENT_ID@),
        ("code_verifier"@, verifier),
    ]
}

/// Builds the form that exchanges an authorization code, with the PKCE
/// verifier, for tokens.
pub fn code_exchange_form(code: &str, redirect_uri: &str, verifier: &str) -> (r: Vec<(String, String)>)
    ensures
        pairs_view(r@) == code_exchange_params(code@, redirect_uri@, verifier@),
{
    let mut r: Vec<(String, String)> = Vec::new();
    r.push(pair("grant_type", "authorization_code"));
    r.push(pair("code", code));
    r.push(pair("redirect_uri", redirect_uri));
    r.push(pair("client_id", CLIENT_ID));
    r.push(pair("code_verifier", verifier));
    assert(pairs_view(r@) =~= code_exchange_params(code@, redirect_uri@, verifier@));
    r
}

/// The members of the JSON request that refreshes tokens.
pub open spec fn refresh_params(refresh_token: Seq<char>) -> Seq<(Seq<char>, Seq<char>)> {
    seq![
        ("client_id"@, CLIENT_ID@),
        ("grant_type"@, "refresh_token"@),
        ("refresh_token"@, refresh_token),
    ]
}

/// Builds the members of the JSON request that refreshes tokens.
pub fn refresh_request_fields(refresh_token: &str) -> (r: Vec<(String, String)>)
    ensures
        pairs_view(r@) == refresh_params(refresh_token@),
{
    let mut r: Vec<(String, String)> = Vec::new();
    r.push(pair("client_id", CLIENT_ID));
    r.push(pair("grant_type", "refresh_token"));
    r.push(pair("refresh_token", refresh_token));
    assert(pairs_view(r@) =~= refresh_params(refresh_token@));
    r
}

/// The members of the JSON request that polls a device sign-in.
pub open spec fn device_poll_params(device_auth_id: Seq<char>, user_code: Seq<char>) -> Seq<
    (Seq<char>, Seq<char>),
> {
    seq![("device_auth_id"@, device_auth_id), ("user_code"@, user_code)]
}

/// Builds the members of the JSON request that polls a device sign-in.
pub fn device_poll_fields(device_auth_id: &str, user_code: &str) -> (r: Vec<(String, String)>)
    ensures
        pairs_view(r@) == device_poll_params(device_auth_id@, user_code@),
{
    let mut r: Vec<(String, String)> = Vec::new();
    r.push(pair("device_auth_id", device_auth_id));
    r.push(pair("user_code", user_code));
    assert(pairs_view(r@) =~= device_poll_params(device_auth_id@, user_code@));
    r
}


/// A pasted text that is not a URL is taken, trimmed, as the authorization
/// code, with no state.
pub proof fn lemma_bare_code(input: Seq<char>)
    requires
        !contains_seq(trimmed(input), "://"@),
    ensures
        parse_callback_spec(input) == Ok::<(Seq<char>, Option<Seq<char>>), CallbackError>(
            (trimmed(input), None),
        ),
{
}

/// A browser sign-in accepts a callback only when the callback reads and
/// carries no state or the state the sign-in sent; then it gives the
/// callback's code. A callback with another state is always refused.
pub proof fn lemma_state_checked(input: Seq<char>, expected_state: Seq<char>)
    ensures
        callback_code_spec(input, expected_state) matches Ok(code) ==> (parse_callback_spec(input)
            == Ok::<(Seq<char>, Option<Seq<char>>), CallbackError>((code, None))
            || parse_callback_spec(input) == Ok::<(Seq<char>, Option<Seq<char>>), CallbackError>(
            (code, Some(expected_state)),
        )),
        parse_callback_spec(input) matches Ok((code, Some(s))) ==> (s != expected_state
            ==> callback_code_spec(input, expected_state) == Err::<Seq<char>, CallbackError>(
            CallbackError::StateMismatch,
        )),
{
}

/// The device-code flow never polls again sooner than a second after a
/// poll, and never waits again once fifteen minutes have passed.
pub proof fn lemma_poll_pacing(status: u16, elapsed_secs: u64, interval: u64)
    ensures
        poll_step_spec(status, elapsed_secs, interval) matches PollStep::Wait(w) ==> w >= 1 && w
            >= interval,
        elapsed_secs >= LOGIN_TIMEOUT_SECS ==> !(poll_step_spec(
            status,
            elapsed_secs,
            interval,
        ) is Wait),
{
}

/// The two legs of a PKCE sign-in agree: the authorization request carries
/// the `S256` challenge of the verifier that the code exchange sends, and
/// both name the same redirect URI and client.
pub proof fn lemma_pkce_pairing(
    verifier: Seq<char>,
    code: Seq<char>,
    redirect_uri: Seq<char>,
    state: Seq<char>,
)
    ensures
        ({
            let auth = authorize_params(redirect_uri, pkce_challenge_spec(verifier), state);
            let exchange = code_exchange_params(code, redirect_uri, verifier);
            &&& auth[4] == ("code_challenge"@, pkce_challenge_spec(verifier))
            &&& auth[5] == ("code_challenge_method"@, "S256"@)
            &&& exchange[4] == ("code_verifier"@, verifier)
            &&& auth[2] == exchange[2]
            &&& auth[1] == exchange[3]
        }),
{
}


/// The authorization request carries the redirect URI, the challenge and the
/// state exactly as given: each is the first (and only) value of its
/// parameter, and the method is always `S256`.
pub proof fn lemma_authorize_params_carry_inputs(
    redirect_uri: Seq<char>,
    challenge: Seq<char>,
    state: Seq<char>,
)
    ensures
        authorize_params(redirect_uri, challenge, state).len() == 10,
        authorize_params(redirect_uri, challenge, state)[2] == ("redirect_uri"@, redirect_uri),
        authorize_params(redirect_uri, challenge, state)[4] == ("code_challenge"@, challenge),
        authorize_params(redirect_uri, challenge, state)[8] == ("state"@, state),
        first_value(authorize_params(redirect_uri, challenge, state), "state"@) == Some(state),
        first_value(authorize_params(redirect_uri, challenge, state), "redirect_uri"@) == Some(
            redirect_uri,
        ),
        first_value(authorize_params(redirect_uri, challenge, state), "code_challenge"@) == Some(
            challenge,
        ),
        first_value(authorize_params(redirect_uri, challenge, state), "code_challenge_method"@)
            == Some("S256"@),
{
    reveal_strlit("response_type");
    reveal_strlit("client_id");
    reveal_strlit("redirect_uri");
    reveal_strlit("scope");
    reveal_strlit("code_challenge");
    reveal_strlit("code_challenge_method");
    reveal_strlit("id_token_add_organizations");
    reveal_strlit("codex_cli_simplified_flow");
    reveal_strlit("state");
    let p = authorize_params(redirect_uri, challenge, state);
    assert("state"@.len() == 5);
    assert(p[0].0.len() == 13);
    assert(p[0].0 != "state"@);
    assert(p[1].0 != "state"@);
    assert(p[2].0 != "state"@);
    assert(p[3].0[1] != "state"@[1]);
    assert(p[3].0 != "state"@);
    assert(p[4].0 != "state"@);
    assert(p[5].0 != "state"@);
    assert(p[6].0 != "state"@);
    assert(p[7].0 != "state"@);
    lemma_first_value_at(p, "state"@, 8);
    assert("redirect_uri"@.len() == 12 && p[1].0.len() == 9);
    assert(p[0].0 != "redirect_uri"@ && p[1].0 != "redirect_uri"@);
    lemma_first_value_at(p, "redirect_uri"@, 2);
    assert("code_challenge"@.len() == 14 && p[2].0.len() == 12 && p[3].0.len() == 5);
    assert(p[0].0 != "code_challenge"@ && p[1].0 != "code_challenge"@);
    assert(p[2].0 != "code_challenge"@ && p[3].0 != "code_challenge"@);
    lemma_first_value_at(p, "code_challenge"@, 4);
    assert("code_challenge_method"@.len() == 21 && p[4].0.len() == 14);
    assert(p[0].0 != "code_challenge_method"@ && p[1].0 != "code_challenge_method"@);
    assert(p[2].0 != "code_challenge_method"@ && p[3].0 != "code_challenge_method"@);
    assert(p[4].0 != "code_challenge_method"@);
    lemma_first_value_at(p, "code_challenge_method"@, 5);
}

proof fn lemma_first_value_at(p: Seq<(Seq<char>, Seq<char>)>, name: Seq<char>, k: int)
    requires
        0 <= k < p.len(),
        p[k].0 == name,
        forall|j: int| 0 <= j < k ==> p[j].0 != name,
    ensures
        first_value(p, name) == Some(p[k].1),
    decreases k,
{
    if k > 0 {
        let q = p.drop_first();
        assert forall|j: int| 0 <= j < k - 1 implies q[j].0 != name by {
            assert(q[j] == p[j + 1]);
        }
        lemma_first_value_at(q, name, k - 1);
    }
}

/// The code exchange sends the code, the redirect URI and the verifier it
/// is given, under their parameter names, with the grant type and the
/// client fixed.
pub proof fn lemma_code_exchange_carries_inputs(
    code: Seq<char>,
    redirect_uri: Seq<char>,
    verifier: Seq<char>,
)
    ensures
        code_exchange_params(code, redirect_uri, verifier).len() == 5,
        code_exchange_params(code, redirect_uri, verifier)[0] == ("grant_type"@,
        "authorization_code"@),
        code_exchange_params(code, redirect_uri, verifier)[1] == ("code"@, code),
        code_exchange_params(code, redirect_uri, verifier)[2] == ("redirect_uri"@, redirect_uri),
        code_exchange_params(code, redirect_uri, verifier)[3] == ("client_id"@, CLIENT_ID@),
        code_exchange_params(code, redirect_uri, verifier)[4] == ("code_verifier"@, verifier),
        forall|other: Seq<char>|
            #![trigger code_exchange_params(code, other, verifier)]
            other != redirect_uri ==> code_exchange_params(code, other, verifier)
                != code_exchange_params(code, redirect_uri, verifier),
{
    assert forall|other: Seq<char>|
        #![trigger code_exchange_params(code, other, verifier)]
        other != redirect_uri implies code_exchange_params(code, other, verifier)
        != code_exchange_params(code, redirect_uri, verifier) by {
        assert(code_exchange_params(code, other, verifier)[2].1 == other);
    }
}

/// After a poll, the device-code flow approves exactly on a success status;
/// any other status but 403 and 404 fails it with that status; 403 and 404
/// keep it waiting, at least a second and at least the interval, until
/// fifteen minutes have passed.
pub proof fn lemma_poll_decisions(status: u16, elapsed_secs: u64, interval: u64)
    ensures
        (poll_step_spec(status, elapsed_secs, interval) is Approved) == (200 <= status <= 299),
        !(200 <= status <= 299) && status != 403 && status != 404 ==> poll_step_spec(
            status,
            elapsed_secs,
            interval,
        ) == PollStep::Failed(status),
        (poll_step_spec(status, elapsed_secs, interval) is Failed) ==> status != 403 && status
            != 404 && !(200 <= status <= 299),
        (status == 403 || status == 404) && elapsed_secs < 900 ==> poll_step_spec(
            status,
            elapsed_secs,
            interval,
        ) == PollStep::Wait(if interval == 0 { 1 } else { interval }),
        (status == 403 || status == 404) && elapsed_secs >= 900 ==> poll_step_spec(
            status,
            elapsed_secs,
            interval,
        ) == PollStep::TimedOut,
{
}

proof fn lemma_scan_to_at(s: Seq<char>, c: char, i: int, k: int)
    requires
        0 <= i <= k <= s.len(),
        k < s.len() ==> s[k] == c,
        forall|j: int| i <= j < k ==> s[j] != c,
    ensures
        scan_to(s, c, i) == k,
    decreases k - i,
{
    if i < k {
        lemma_scan_to_at(s, c, i + 1, k);
    }
}

proof fn lemma_word_end_at(s: Seq<char>, i: int, k: int)
    requires
        0 <= i <= k <= s.len(),
        k < s.len() ==> is_white_space(s[k]),
        forall|j: int| i <= j < k ==> !is_white_space(s[j]),
    ensures
        word_end(s, i) == k,
    decreases k - i,
{
    if i < k {
        lemma_word_end_at(s, i + 1, k);
    }
}

/// The callback URL is the listener's origin followed by the whole request
/// target, however long: for a request whose text is a method, a space, the
/// target, a space, a version and `\r\n` (then anything), the callback is
/// the origin and the target.
pub proof fn lemma_loopback_keeps_target(
    request: Seq<u8>,
    method: Seq<char>,
    target: Seq<char>,
    version: Seq<char>,
    rest: Seq<char>,
)
    requires
        vstd::utf8::valid_utf8(request),
        vstd::utf8::decode_utf8(request) == method + seq![' '] + target + seq![' '] + version
            + seq!['\r', '\n'] + rest,
        method.len() > 0,
        target.len() > 0,
        forall|i: int| 0 <= i < method.len() ==> !is_white_space(#[trigger] method[i]),
        forall|i: int| 0 <= i < target.len() ==> !is_white_space(#[trigger] target[i]),
        forall|i: int| 0 <= i < version.len() ==> #[trigger] version[i] != '\n',
    ensures
        loopback_callback_spec(request) == Ok::<Seq<char>, LoopbackError>(LOOPBACK_ORIGIN@ + target),
{
    let text = vstd::utf8::decode_utf8(request);
    let line = method + seq![' '] + target + seq![' '] + version;
    let m = method.len() as int;
    let t = target.len() as int;
    let n = line.len() as int;
    assert(text == line + seq!['\r', '\n'] + rest);
    assert forall|j: int| 0 <= j < n + 1 implies text[j] != '\n' by {
        assert(text[j] == (line + seq!['\r'])[j]);
        if j < m {
            assert(text[j] == method[j]);
        } else if m < j < m + 1 + t {
            assert(text[j] == target[j - m - 1]);
        } else if m + 1 + t < j < n {
            assert(text[j] == version[j - m - 2 - t]);
        }
    }
    lemma_scan_to_at(text, '\n', 0, n + 1);
    assert(text.take(n) =~= line);
    assert(first_line(text) == Some(line));
    assert(!is_white_space(line[0]));
    assert forall|j: int| 0 <= j < m implies !is_white_space(line[j]) by {
        assert(line[j] == method[j]);
    }
    lemma_word_end_at(line, 0, m);
    assert(line[m + 1] == target[0]);
    assert forall|j: int| m + 1 <= j < m + 1 + t implies !is_white_space(line[j]) by {
        assert(line[j] == target[j - m - 1]);
    }
    lemma_word_end_at(line, m + 1, m + 1 + t);
    assert(skip_white_space(line, 0) == 0);
    assert(is_white_space(line[m]));
    assert(skip_white_space(line, m + 1) == m + 1);
    assert(skip_white_space(line, m) == m + 1);
    assert(line.subrange(m + 1, m + 1 + t) =~= target);
    assert(second_word(line) == Some(target));
    assert(request_target(text) == Some(target));
}

} // verus!
