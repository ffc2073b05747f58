//! The `/login` slash command: picks the account provider to sign in with.

use vstd::prelude::*;
use vstd::string::StringExecFns;

use agent_client_protocol::v1::schema::AuthMethodId;

use crate::oauth::AUTH_METHOD_ID;
use crate::text::{
    ascii_lowercase, is_white_space, lemma_lower_trim_idempotent, lemma_trimmed_unchanged,
    to_ascii_lowercase, trim, trimmed,
};

verus! {

#[verifier::external_type_specification]
#[verifier::external_body]
pub struct ExAuthMethodId(AuthMethodId);

/// The identifier of the X account sign-in method.
pub const GROK_COM_METHOD_ID: &'static str = "grok-com";

/// The `AuthMethodId` that wraps the identifier `id`.
pub uninterp spec fn auth_method_id(id: Seq<char>) -> AuthMethodId;

/// Trusted: `AuthMethodId::new`, which wraps the identifier as the typed id
/// of an authentication method.
#[verifier::external_body]
fn new_auth_method_id(id: &str) -> (r: AuthMethodId)
    ensures
        r == auth_method_id(id@),
{
    AuthMethodId::new(id)
}

/// What a slash command asks the application to do.
#[derive(Debug, PartialEq)]
pub enum Action {
    /// Start signing in with the given authentication method.
    LoginWithMethod(AuthMethodId),
}

/// The result of running a slash command.
#[derive(Debug, PartialEq)]
pub enum CommandResult {
    /// The command asks for an action.
    Action(Action),
    /// The command failed with this message.
    Error(String),
}

/// A suggestion for a command argument.
#[derive(Debug, Clone, PartialEq, Eq)]
pub struct ArgItem {
    /// What the suggestion list shows.
    pub display: String,
    /// The words that a typed query is matched against.
    pub match_text: String,
    /// What choosing the suggestion inserts.
    pub insert_text: String,
    /// A line that explains the suggestion.
    pub description: String,
}

/// `ArgItem` as plain values.
pub struct ArgItemView {
    pub display: Seq<char>,
    pub match_text: Seq<char>,
    pub insert_text: Seq<char>,
    pub description: Seq<char>,
}

impl View for ArgItem {
    type V = ArgItemView;

    open spec fn view(&self) -> ArgItemView {
        ArgItemView {
            display: self.display@,
            match_text: self.match_text@,
            insert_text: self.insert_text@,
            description: self.description@,
        }
    }
}

/// The providers that `/login` accepts.
pub enum LoginProvider {
    /// The X account (Grok).
    Xai,
    /// ChatGPT OAuth.
    ChatGpt,
}

/// The provider that a normalized argument names: empty, `x`, `xai` or
/// `grok` for X; `chatgpt`, `openai`, `codex` or `openai-codex` for ChatGPT.
pub open spec fn provider_named(p: Seq<char>) -> Option<LoginProvider> {
    if p == ""@ || p == "x"@ || p == "xai"@ || p == "grok"@ {
        Some(LoginProvider::Xai)
    } else if p == "chatgpt"@ || p == "openai"@ || p == "codex"@ || p == "openai-codex"@ {
        Some(LoginProvider::ChatGpt)
    } else {
        None
    }
}

/// The authentication method of each provider.
pub open spec fn method_of(p: LoginProvider) -> Seq<char> {
    match p {
        LoginProvider::Xai => GROK_COM_METHOD_ID@,
        LoginProvider::ChatGpt => AUTH_METHOD_ID@,
    }
}

/// The argument of `/login` as it is matched: trimmed and in ASCII lower
/// case.
pub open spec fn normalized_provider(args: Seq<char>) -> Seq<char> {
    ascii_lowercase(trimmed(args))
}

/// What `/login` does with its argument.
pub enum LoginOutcome {
    /// Sign in with the authentication method of this identifier.
    SignIn(Seq<char>),
    /// Report this message.
    Refuse(Seq<char>),
}

/// The outcome of `/login args`: sign in with the provider that the
/// normalized argument names, or refuse an unknown provider, quoting it.
pub open spec fn login_outcome(args: Seq<char>) -> LoginOutcome {
    let p = normalized_provider(args);
    match provider_named(p) {
        Some(k) => LoginOutcome::SignIn(method_of(k)),
        None => LoginOutcome::Refuse(
            "Unknown login provider '"@ + p + "'. Use xai or chatgpt."@,
        ),
    }
}

/// A command result as its outcome.
pub open spec fn result_matches(r: CommandResult, o: LoginOutcome) -> bool {
    match o {
        LoginOutcome::SignIn(id) => r == CommandResult::Action(
            Action::LoginWithMethod(auth_method_id(id)),
        ),
        LoginOutcome::Refuse(msg) => r matches CommandResult::Error(m) && m@ == msg,
    }
}

/// Whether `s` is the text `t`.
fn same_text(s: &String, t: &str) -> (r: bool)
    ensures
        r == (s@ == t@),
{
    *s == t.to_owned()
}

/// The argument suggestions, in order.
pub open spec fn login_suggestions() -> Seq<ArgItemView> {
    seq![
        ArgItemView {
            display: "X / Grok"@,
            match_text: "x xai grok"@,
            insert_text: "xai"@,
            description: "Use the stock X account login flow"@,
        },
        ArgItemView {
            display: "ChatGPT"@,
            match_text: "chatgpt openai codex"@,
            insert_text: "chatgpt"@,
            description: "Use ChatGPT OAuth for GPT-5.6 models"@,
        },
    ]
}

/// A suggestion made of four texts.
fn arg_item(display: &str, match_text: &str, insert_text: &str, description: &str) -> (r:
    ArgItem)
    ensures
        r@ == (ArgItemView {
            display: display@,
            match_text: match_text@,
            insert_text: insert_text@,
            description: description@,
        }),
{
    ArgItem {
        display: display.to_owned(),
        match_text: match_text.to_owned(),
        insert_text: insert_text.to_owned(),
        description: description.to_owned(),
    }
}

/// `/login`: log in or re-authenticate with an account.
pub struct LoginCommand;

impl LoginCommand {
    /// The command's name.
    pub fn name(&self) -> (r: &str)
        ensures
            r@ == "login"@,
    {
        "login"
    }

    /// The line that describes the command.
    pub fn description(&self) -> (r: &str)
        ensures
            r@ == "Log in or re-authenticate with your account"@,
    {
        "Log in or re-authenticate with your account"
    }

    /// How the command is written.
    pub fn usage(&self) -> (r: &str)
        ensures
            r@ == "/login [xai|chatgpt]"@,
    {
        "/login [xai|chatgpt]"
    }

    /// The command takes an argument.
    pub fn takes_args(&self) -> (r: bool)
        ensures
            r,
    {
        true
    }

    /// The placeholder shown for the argument.
    pub fn arg_placeholder(&self) -> (r: Option<&str>)
        ensures
            r matches Some(p) && p@ == "[provider]"@,
    {
        Some("[provider]")
    }

    /// The providers offered for the argument, whatever has been typed.
    pub fn suggest_args(&self, _args_query: &str) -> (r: Option<Vec<ArgItem>>)
        ensures
            r matches Some(items) && items@.map_values(|i: ArgItem| i@) == login_suggestions(),
    {
        let mut items: Vec<ArgItem> = Vec::new();
        items.push(
            arg_item("X / Grok", "x xai grok", "xai", "Use the stock X account login flow"),
        );
        items.push(
            arg_item(
                "ChatGPT",
                "chatgpt openai codex",
                "chatgpt",
                "Use ChatGPT OAuth for GPT-5.6 models",
            ),
        );
        assert(items@.map_values(|i: ArgItem| i@) =~= login_suggestions());
        Some(items)
    }

    /// Runs `/login args`: signs in with the provider that the argument
    /// names, whatever its case and surrounding whitespace, or reports an
    /// unknown provider.
    pub fn run(&self, args: &str) -> (r: CommandResult)
        ensures
            result_matches(r, login_outcome(args@)),
    {
        let provider = to_ascii_lowercase(trim(args));
        if same_text(&provider, "") || same_text(&provider, "x") || same_text(&provider, "xai")
            || same_text(&provider, "grok") {
            CommandResult::Action(Action::LoginWithMethod(new_auth_method_id(GROK_COM_METHOD_ID)))
        } else if same_text(&provider, "chatgpt") || same_text(&provider, "openai") || same_text(
            &provider,
            "codex",
        ) || same_text(&provider, "openai-codex") {
            CommandResult::Action(Action::LoginWithMethod(new_auth_method_id(AUTH_METHOD_ID)))
        } else {
            let mut m = "Unknown login provider '".to_owned();
            m.append(provider.as_str());
            m.append("'. Use xai or chatgpt.");
            CommandResult::Error(m)
        }
    }
}


/// `/login` reads its argument whatever its case and surrounding
/// whitespace: an argument already trimmed and lower-cased has the same
/// outcome as the argument it came from.
pub proof fn lemma_login_normalized(args: Seq<char>)
    ensures
        login_outcome(normalized_provider(args)) == login_outcome(args),
{
    lemma_lower_trim_idempotent(args);
}

/// Every provider that `/login` suggests signs in when chosen: `xai` with
/// the X account method and `chatgpt` with the ChatGPT method.
pub proof fn lemma_suggestions_sign_in()
    ensures
        login_outcome(login_suggestions()[0].insert_text) == LoginOutcome::SignIn(
            GROK_COM_METHOD_ID@,
        ),
        login_outcome(login_suggestions()[1].insert_text) == LoginOutcome::SignIn(
            AUTH_METHOD_ID@,
        ),
{
    reveal_strlit("xai");
    reveal_strlit("chatgpt");
    reveal_strlit("");
    reveal_strlit("x");
    reveal_strlit("grok");
    let a = "xai"@;
    let b = "chatgpt"@;
    assert(!is_white_space(a[0]) && !is_white_space(a[a.len() - 1]));
    assert(!is_white_space(b[0]) && !is_white_space(b[b.len() - 1]));
    lemma_trimmed_unchanged(a);
    lemma_trimmed_unchanged(b);
    assert(ascii_lowercase(a) =~= a);
    assert(ascii_lowercase(b) =~= b);
}


/// `w` is one of the whitespace-separated words of `s`.
pub open spec fn is_word_of(w: Seq<char>, s: Seq<char>) -> bool {
    exists|i: int, j: int|
        0 <= i < j <= s.len() && #[trigger] s.subrange(i, j) == w && (i == 0 || is_white_space(
            s[i - 1],
        )) && (j == s.len() || is_white_space(s[j])) && forall|k: int|
            i <= k < j ==> !is_white_space(s[k])
}

/// A word of lower-case letters is its own normalized argument.
proof fn lemma_plain_word(w: Seq<char>)
    requires
        w.len() > 0,
        forall|k: int| 0 <= k < w.len() ==> 'a' <= #[trigger] w[k] <= 'z',
    ensures
        normalized_provider(w) == w,
{
    lemma_trimmed_unchanged(w);
    assert(ascii_lowercase(w) =~= w);
}

/// The words of the first suggestion's match text.
proof fn lemma_x_words(w: Seq<char>)
    requires
        is_word_of(w, "x xai grok"@),
    ensures
        w == "x"@ || w == "xai"@ || w == "grok"@,
{
    reveal_strlit("x xai grok");
    reveal_strlit("x");
    reveal_strlit("xai");
    reveal_strlit("grok");
    let s = "x xai grok"@;
    let (i, j) = choose|i: int, j: int|
        0 <= i < j <= s.len() && #[trigger] s.subrange(i, j) == w && (i == 0 || is_white_space(
            s[i - 1],
        )) && (j == s.len() || is_white_space(s[j])) && forall|k: int|
            i <= k < j ==> !is_white_space(s[k]);
    assert(i == 0 || i == 2 || i == 6) by {
        if i != 0 {
            assert(is_white_space(s[i - 1]));
        }
    }
    if i == 0 {
        assert(!is_white_space(s[1]) || j <= 1);
        assert(j == 1);
        assert(s.subrange(0, 1) =~= "x"@);
    } else if i == 2 {
        assert(j > 5 ==> !is_white_space(s[5]));
        assert(j == 5) by {
            if j < 5 {
                assert(is_white_space(s[j]));
            }
        }
        assert(s.subrange(2, 5) =~= "xai"@);
    } else {
        assert(j == 10) by {
            if j < 10 {
                assert(is_white_space(s[j]));
            }
        }
        assert(s.subrange(6, 10) =~= "grok"@);
    }
}

/// The words of the second suggestion's match text.
proof fn lemma_chatgpt_words(w: Seq<char>)
    requires
        is_word_of(w, "chatgpt openai codex"@),
    ensures
        w == "chatgpt"@ || w == "openai"@ || w == "codex"@,
{
    reveal_strlit("chatgpt openai codex");
    reveal_strlit("chatgpt");
    reveal_strlit("openai");
    reveal_strlit("codex");
    let s = "chatgpt openai codex"@;
    let (i, j) = choose|i: int, j: int|
        0 <= i < j <= s.len() && #[trigger] s.subrange(i, j) == w && (i == 0 || is_white_space(
            s[i - 1],
        )) && (j == s.len() || is_white_space(s[j])) && forall|k: int|
            i <= k < j ==> !is_white_space(s[k]);
    assert(i == 0 || i == 8 || i == 15) by {
        if i != 0 {
            assert(is_white_space(s[i - 1]));
        }
    }
    if i == 0 {
        assert(j > 7 ==> !is_white_space(s[7]));
        assert(j == 7) by {
            if j < 7 {
                assert(is_white_space(s[j]));
            }
        }
        assert(s.subrange(0, 7) =~= "chatgpt"@);
    } else if i == 8 {
        assert(j > 14 ==> !is_white_space(s[14]));
        assert(j == 14) by {
            if j < 14 {
                assert(is_white_space(s[j]));
            }
        }
        assert(s.subrange(8, 14) =~= "openai"@);
    } else {
        assert(j == 20) by {
            if j < 20 {
                assert(is_white_space(s[j]));
            }
        }
        assert(s.subrange(15, 20) =~= "codex"@);
    }
}

/// Every word that a suggestion lists for matching, like the text it
/// inserts, signs in when given to `/login`, and with the same method as
/// that text.
pub proof fn lemma_suggestion_words_sign_in(k: int, w: Seq<char>)
    requires
        0 <= k < login_suggestions().len(),
        w == login_suggestions()[k].insert_text || is_word_of(w, login_suggestions()[k].match_text),
    ensures
        login_outcome(w) == login_outcome(login_suggestions()[k].insert_text),
        login_outcome(w) is SignIn,
{
    lemma_suggestions_sign_in();
    reveal_strlit("");
    reveal_strlit("x");
    reveal_strlit("xai");
    reveal_strlit("grok");
    reveal_strlit("chatgpt");
    reveal_strlit("openai");
    reveal_strlit("codex");
    reveal_strlit("openai-codex");
    if k == 0 {
        if w != "xai"@ {
            lemma_x_words(w);
        }
        assert(w == "x"@ || w == "xai"@ || w == "grok"@);
    } else {
        if w != "chatgpt"@ {
            lemma_chatgpt_words(w);
        }
        assert(w == "chatgpt"@ || w == "openai"@ || w == "codex"@);
    }
    lemma_plain_word(w);
}

} // verus!
