//! The ChatGPT OAuth token set: how it is built from a token response, and
//! when it is due for a refresh.

use vstd::prelude::*;
use vstd::string::StringExecFns;

use crate::jwt::{
    jwt_claim, jwt_claim_i64, jwt_claim_i64_spec, jwt_claim_spec, jwt_nested_claim,
    jwt_nested_claim_spec, opt_text,
};

verus! {

/// The namespace claim under which OpenAI tokens carry account details.
pub const OPENAI_AUTH_CLAIM: &'static str = "https://api.openai.com/auth";

/// The claim that names the ChatGPT account.
pub const ACCOUNT_ID_CLAIM: &'static str = "chatgpt_account_id";

/// The claim that gives a token's expiry, in seconds since the Unix epoch.
pub const EXPIRY_CLAIM: &'static str = "exp";

/// How long before its expiry an access token is refreshed, in seconds.
pub const REFRESH_SKEW_SECS: i64 = 300;

/// The lifetime assumed for an access token that states no expiry, in
/// seconds.
pub const ASSUMED_LIFETIME_SECS: i64 = 3600;

/// Stored ChatGPT OAuth credentials.
#[derive(Clone, Debug)]
pub struct Credentials {
    pub access_token: String,
    pub refresh_token: String,
    pub id_token: String,
    pub account_id: Option<String>,
    /// Expiry of the access token, in seconds since the Unix epoch.
    pub expires_at: i64,
}

/// `Credentials` as plain values.
pub struct CredentialsView {
    pub access_token: Seq<char>,
    pub refresh_token: Seq<char>,
    pub id_token: Seq<char>,
    pub account_id: Option<Seq<char>>,
    pub expires_at: i64,
}

impl View for Credentials {
    type V = CredentialsView;

    open spec fn view(&self) -> CredentialsView {
        CredentialsView {
            access_token: self.access_token@,
            refresh_token: self.refresh_token@,
            id_token: self.id_token@,
            account_id: opt_text(self.account_id),
            expires_at: self.expires_at,
        }
    }
}

/// The token set that the OAuth token endpoint answers with; each token may
/// be missing.
#[derive(Clone, Debug)]
pub struct TokenResponse {
    pub id_token: Option<String>,
    pub access_token: Option<String>,
    pub refresh_token: Option<String>,
}

/// `TokenResponse` as plain values.
pub struct TokenResponseView {
    pub id_token: Option<Seq<char>>,
    pub access_token: Option<Seq<char>>,
    pub refresh_token: Option<Seq<char>>,
}

impl View for TokenResponse {
    type V = TokenResponseView;

    open spec fn view(&self) -> TokenResponseView {
        TokenResponseView {
            id_token: opt_text(self.id_token),
            access_token: opt_text(self.access_token),
            refresh_token: opt_text(self.refresh_token),
        }
    }
}

/// The view of optional credentials.
pub open spec fn opt_credentials(c: Option<Credentials>) -> Option<CredentialsView> {
    match c {
        Some(c) => Some(c@),
        None => None,
    }
}

/// Why a token response cannot become credentials.
#[derive(Debug, Clone, Copy, PartialEq, Eq)]
pub enum CredentialsError {
    /// Neither the response nor the earlier credentials hold an access token.
    MissingAccessToken,
    /// Neither the response nor the earlier credentials hold a refresh token.
    MissingRefreshToken,
}

impl CredentialsError {
    /// The message that reports the error.
    pub fn message(&self) -> (r: String)
        ensures
            r@ == credentials_error_text(*self),
    {
        match self {
            CredentialsError::MissingAccessToken => "OAuth response did not include an access token".to_owned(),
            CredentialsError::MissingRefreshToken => "OAuth response did not include a refresh token".to_owned(),
        }
    }
}

/// The message of each credentials error.
pub open spec fn credentials_error_text(e: CredentialsError) -> Seq<char> {
    match e {
        CredentialsError::MissingAccessToken => "OAuth response did not include an access token"@,
        CredentialsError::MissingRefreshToken => "OAuth response did not include a refresh token"@,
    }
}

/// A token from the response where it holds one, else the earlier one.
pub open spec fn newer_or(fresh: Option<Seq<char>>, earlier: Option<Seq<char>>) -> Option<
    Seq<char>,
> {
    match fresh {
        Some(t) => Some(t),
        None => earlier,
    }
}

/// The ChatGPT account of a token set: the namespaced account claim of the
/// ID token, then of the access token, then the flat account claim of the
/// ID token, then of the access token, and last the earlier account.
pub open spec fn account_id_spec(
    id_token: Seq<char>,
    access_token: Seq<char>,
    previous: Option<CredentialsView>,
) -> Option<Seq<char>> {
    let ns = OPENAI_AUTH_CLAIM@;
    let claim = ACCOUNT_ID_CLAIM@;
    match jwt_nested_claim_spec(id_token, ns, claim) {
        Some(a) => Some(a),
        None => match jwt_nested_claim_spec(access_token, ns, claim) {
            Some(a) => Some(a),
            None => match jwt_claim_spec(id_token, claim) {
                Some(a) => Some(a),
                None => match jwt_claim_spec(access_token, claim) {
                    Some(a) => Some(a),
                    None => match previous {
                        Some(p) => p.account_id,
                        None => None,
                    },
                },
            },
        },
    }
}

/// The expiry of an access token: its expiry claim, or an hour after `now`
/// (with the wrap-around of `i64` arithmetic).
pub open spec fn expiry_spec(access_token: Seq<char>, now: i64) -> i64 {
    match jwt_claim_i64_spec(access_token, EXPIRY_CLAIM@) {
        Some(e) => e,
        None => now.wrapping_add(ASSUMED_LIFETIME_SECS),
    }
}

/// The credentials that a token response gives at time `now`, the earlier
/// credentials (on a refresh) filling in what the response leaves out.
pub open spec fn credentials_spec(
    response: TokenResponseView,
    previous: Option<CredentialsView>,
    now: i64,
) -> Result<CredentialsView, CredentialsError> {
    let prev_access = match previous {
        Some(p) => Some(p.access_token),
        None => None,
    };
    let prev_refresh = match previous {
        Some(p) => Some(p.refresh_token),
        None => None,
    };
    let prev_id = match previous {
        Some(p) => Some(p.id_token),
        None => None,
    };
    match newer_or(response.access_token, prev_access) {
        None => Err(CredentialsError::MissingAccessToken),
        Some(access_token) => match newer_or(response.refresh_token, prev_refresh) {
            None => Err(CredentialsError::MissingRefreshToken),
            Some(refresh_token) => {
                let id_token = match newer_or(response.id_token, prev_id) {
                    Some(t) => t,
                    None => Seq::empty(),
                };
                Ok(
                    CredentialsView {
                        access_token,
                        refresh_token,
                        id_token,
                        account_id: account_id_spec(id_token, access_token, previous),
                        expires_at: expiry_spec(access_token, now),
                    },
                )
            },
        },
    }
}

/// A token from the response, else a copy of the earlier one.
fn newer_token(fresh: Option<String>, earlier: Option<&String>) -> (r: Option<String>)
    ensures
        opt_text(r) == newer_or(
            opt_text(fresh),
            match earlier {
                Some(e) => Some(e@),
                None => None,
            },
        ),
{
    match fresh {
        Some(t) => Some(t),
        None => match earlier {
            Some(e) => Some(e.clone()),
            None => None,
        },
    }
}

/// The credentials that `response` gives at time `now`; `previous` holds the
/// credentials being refreshed, whose tokens fill in those the response
/// leaves out.
pub fn credentials_from_response_at(
    response: TokenResponse,
    previous: Option<Credentials>,
    now: i64,
) -> (r: Result<Credentials, CredentialsError>)
    ensures
        match r {
            Ok(c) => credentials_spec(response@, opt_credentials(previous), now) == Ok::<
                CredentialsView,
                CredentialsError,
            >(c@),
            Err(e) => credentials_spec(response@, opt_credentials(previous), now) == Err::<
                CredentialsView,
                CredentialsError,
            >(e),
        },
{
    let ghost resp = response@;
    let ghost prev = opt_credentials(previous);
    let access_token = match newer_token(
        response.access_token,
        match &previous {
            Some(p) => Some(&p.access_token),
            None => None,
        },
    ) {
        Some(t) => t,
        None => return Err(CredentialsError::MissingAccessToken),
    };
    let refresh_token = match newer_token(
        response.refresh_token,
        match &previous {
            Some(p) => Some(&p.refresh_token),
            None => None,
        },
    ) {
        Some(t) => t,
        None => return Err(CredentialsError::MissingRefreshToken),
    };
    let id_token = match newer_token(
        response.id_token,
        match &previous {
            Some(p) => Some(&p.id_token),
            None => None,
        },
    ) {
        Some(t) => t,
        None => String::new(),
    };
    let account_id = match jwt_nested_claim(&id_token, OPENAI_AUTH_CLAIM, ACCOUNT_ID_CLAIM) {
        Some(a) => Some(a),
        None => match jwt_nested_claim(&access_token, OPENAI_AUTH_CLAIM, ACCOUNT_ID_CLAIM) {
            Some(a) => Some(a),
            None => match jwt_claim(&id_token, ACCOUNT_ID_CLAIM) {
                Some(a) => Some(a),
                None => match jwt_claim(&access_token, ACCOUNT_ID_CLAIM) {
                    Some(a) => Some(a),
                    None => match previous {
                        Some(p) => p.account_id,
                        None => None,
                    },
                },
            },
        },
    };
    let expires_at = match jwt_claim_i64(&access_token, EXPIRY_CLAIM) {
        Some(e) => e,
        None => now.wrapping_add(ASSUMED_LIFETIME_SECS),
    };
    let c = Credentials { access_token, refresh_token, id_token, account_id, expires_at };
    assert(credentials_spec(resp, prev, now) == Ok::<CredentialsView, CredentialsError>(c@));
    Ok(c)
}


/// Seconds since the Unix epoch by the system clock, zero for a clock set
/// before the epoch.
///
/// Trusted: `SystemTime::now`, read as a `Duration` since `UNIX_EPOCH`.
/// What it returns is the time, so the contract states nothing of it.
#[verifier::external_body]
fn unix_time_secs() -> u64 {
    std::time::SystemTime::now().duration_since(std::time::UNIX_EPOCH).unwrap_or_default().as_secs()
}

/// The current time in seconds since the Unix epoch, as an `i64` (a clock
/// beyond `i64::MAX` seconds wraps round).
pub fn now_secs() -> i64 {
    unix_time_secs() as i64
}

/// The credentials that `response` gives now: `credentials_from_response_at`
/// at a time read from the system clock.
pub fn credentials_from_response(response: TokenResponse, previous: Option<Credentials>) -> (r:
    Result<Credentials, CredentialsError>)
    ensures
        exists|now: i64|
            match r {
                Ok(c) => #[trigger] credentials_spec(response@, opt_credentials(previous), now)
                    == Ok::<CredentialsView, CredentialsError>(c@),
                Err(e) => credentials_spec(response@, opt_credentials(previous), now) == Err::<
                    CredentialsView,
                    CredentialsError,
                >(e),
            },
{
    let now = now_secs();
    credentials_from_response_at(response, previous, now)
}

/// Credentials can be used as they are at time `now`: their access token
/// expires more than `REFRESH_SKEW_SECS` later (with the wrap-around of
/// `i64` arithmetic).
pub open spec fn fresh_at(expires_at: i64, now: i64) -> bool {
    expires_at > now.wrapping_add(REFRESH_SKEW_SECS)
}

/// Whether `credentials` can be used without a refresh at time `now`.
pub fn is_fresh(credentials: &Credentials, now: i64) -> (r: bool)
    ensures
        r == fresh_at(credentials.expires_at, now),
{
    credentials.expires_at > now.wrapping_add(REFRESH_SKEW_SECS)
}

/// Why stored credentials could not be read.
#[derive(Debug, Clone, PartialEq, Eq)]
pub enum LoadError {
    /// The credential file could not be read; the text names its path.
    NotFound(String),
    /// The credential file does not hold a credential record.
    Invalid,
}

impl LoadError {
    /// The message that reports the error.
    pub fn message(&self) -> (r: String)
        ensures
            r@ == load_error_text(*self),
    {
        match self {
            LoadError::NotFound(path) => {
                let mut m = "ChatGPT credentials not found at ".to_owned();
                m.append(path.as_str());
                m
            },
            LoadError::Invalid => "invalid ChatGPT credential file".to_owned(),
        }
    }
}

/// The message of each load error.
pub open spec fn load_error_text(e: LoadError) -> Seq<char> {
    match e {
        LoadError::NotFound(path) => "ChatGPT credentials not found at "@ + path@,
        LoadError::Invalid => "invalid ChatGPT credential file"@,
    }
}

/// Whether ChatGPT credentials are configured, given the outcome of
/// reading the stored credentials: they are when that read succeeded.
pub fn is_configured(loaded: &Result<Credentials, LoadError>) -> (r: bool)
    ensures
        r == loaded is Ok,
{
    loaded.is_ok()
}


/// Refreshing credentials never fails for want of a token: the earlier
/// credentials supply whatever the response leaves out.
pub proof fn lemma_refresh_always_succeeds(
    response: TokenResponseView,
    previous: CredentialsView,
    now: i64,
)
    ensures
        credentials_spec(response, Some(previous), now) is Ok,
{
}

/// On a refresh, each token is the one the response carries, else the
/// earlier one: a token that the server does not rotate is kept.
pub proof fn lemma_refresh_keeps_unrotated_tokens(
    response: TokenResponseView,
    previous: CredentialsView,
    now: i64,
)
    ensures
        match credentials_spec(response, Some(previous), now) {
            Ok(c) => {
                &&& c.access_token == newer_or(response.access_token, Some(previous.access_token))->0
                &&& c.refresh_token == newer_or(
                    response.refresh_token,
                    Some(previous.refresh_token),
                )->0
                &&& c.id_token == newer_or(response.id_token, Some(previous.id_token))->0
            },
            Err(_) => false,
        },
{
}

/// A first sign-in succeeds exactly when the response carries both an
/// access token and a refresh token; it then holds them, and an empty ID
/// token where the response has none.
pub proof fn lemma_first_sign_in(response: TokenResponseView, now: i64)
    ensures
        (credentials_spec(response, None, now) is Ok) == (response.access_token is Some
            && response.refresh_token is Some),
        response.access_token is None ==> credentials_spec(response, None, now) == Err::<
            CredentialsView,
            CredentialsError,
        >(CredentialsError::MissingAccessToken),
        response.access_token is Some && response.refresh_token is None ==> credentials_spec(
            response,
            None,
            now,
        ) == Err::<CredentialsView, CredentialsError>(CredentialsError::MissingRefreshToken),
        credentials_spec(response, None, now) matches Ok(c) ==> {
            &&& Some(c.access_token) == response.access_token
            &&& Some(c.refresh_token) == response.refresh_token
            &&& c.id_token == match response.id_token {
                Some(t) => t,
                None => Seq::empty(),
            }
        },
{
}

/// The account is taken from the earlier credentials only when neither
/// token names one; a first sign-in without such a claim has no account.
pub proof fn lemma_account_fallback(
    response: TokenResponseView,
    previous: Option<CredentialsView>,
    now: i64,
)
    ensures
        credentials_spec(response, previous, now) matches Ok(c) ==> {
            let ns = OPENAI_AUTH_CLAIM@;
            let claim = ACCOUNT_ID_CLAIM@;
            (jwt_nested_claim_spec(c.id_token, ns, claim) is None && jwt_nested_claim_spec(
                c.access_token,
                ns,
                claim,
            ) is None && jwt_claim_spec(c.id_token, claim) is None && jwt_claim_spec(
                c.access_token,
                claim,
            ) is None) ==> c.account_id == match previous {
                Some(p) => p.account_id,
                None => None,
            }
        },
{
}

/// Credentials whose access token states no expiry are fresh when they
/// are made (the assumed hour is longer than the refresh margin), unless
/// the clock is so close to `i64::MAX` that the hour wraps round.
pub proof fn lemma_new_credentials_fresh(
    response: TokenResponseView,
    previous: Option<CredentialsView>,
    now: i64,
)
    requires
        now <= i64::MAX - ASSUMED_LIFETIME_SECS,
    ensures
        credentials_spec(response, previous, now) matches Ok(c) ==> (jwt_claim_i64_spec(
            c.access_token,
            EXPIRY_CLAIM@,
        ) is None ==> fresh_at(c.expires_at, now)),
{
}

/// Credentials fresh at some time were fresh at every earlier time (as long
/// as no arithmetic wraps round).
pub proof fn lemma_fresh_earlier(expires_at: i64, earlier: i64, later: i64)
    requires
        earlier <= later,
        later <= i64::MAX - REFRESH_SKEW_SECS,
        fresh_at(expires_at, later),
    ensures
        fresh_at(expires_at, earlier),
{
}


/// Credentials expire when their access token says: wherever the access
/// token of the result has an integer `exp` claim, that claim is the expiry,
/// whatever the time of the sign-in; without one, the expiry is an hour
/// after that time.
pub proof fn lemma_expiry_is_claim(
    response: TokenResponseView,
    previous: Option<CredentialsView>,
    now: i64,
    other_now: i64,
)
    ensures
        credentials_spec(response, previous, now) matches Ok(c) ==> {
            &&& (jwt_claim_i64_spec(c.access_token, EXPIRY_CLAIM@) matches Some(e) ==> c.expires_at
                == e)
            &&& (jwt_claim_i64_spec(c.access_token, EXPIRY_CLAIM@) is None ==> c.expires_at
                == now.wrapping_add(3600))
            &&& (jwt_claim_i64_spec(c.access_token, EXPIRY_CLAIM@) is Some ==> (credentials_spec(
                response,
                previous,
                other_now,
            ) matches Ok(d) && d.expires_at == c.expires_at))
        },
{
}

} // verus!
