use agent_client_protocol::v1::schema::AuthMethodId;
use chatgpt_oauth::login_command::{
    Action, CommandResult, LoginCommand, GROK_COM_METHOD_ID,
};
use chatgpt_oauth::oauth::AUTH_METHOD_ID;

fn signs_in_with(result: CommandResult) -> String {
    match result {
        CommandResult::Action(Action::LoginWithMethod(id)) => id.0.to_string(),
        CommandResult::Error(message) => panic!("unexpected error: {message}"),
    }
}

#[test]
fn login_command_describes_itself() {
    let cmd = LoginCommand;
    assert_eq!(cmd.name(), "login");
    assert_eq!(cmd.description(), "Log in or re-authenticate with your account");
    assert_eq!(cmd.usage(), "/login [xai|chatgpt]");
    assert!(cmd.takes_args());
    assert_eq!(cmd.arg_placeholder(), Some("[provider]"));
}

#[test]
fn login_command_suggests_both_providers() {
    let items = LoginCommand.suggest_args("anything").unwrap();
    assert_eq!(items.len(), 2);
    assert_eq!(items[0].display, "X / Grok");
    assert_eq!(items[0].match_text, "x xai grok");
    assert_eq!(items[0].insert_text, "xai");
    assert_eq!(items[0].description, "Use the stock X account login flow");
    assert_eq!(items[1].display, "ChatGPT");
    assert_eq!(items[1].match_text, "chatgpt openai codex");
    assert_eq!(items[1].insert_text, "chatgpt");
    assert_eq!(items[1].description, "Use ChatGPT OAuth for GPT-5.6 models");
}

#[test]
fn login_command_suggestions_sign_in() {
    let items = LoginCommand.suggest_args("").unwrap();
    assert_eq!(signs_in_with(LoginCommand.run(&items[0].insert_text)), GROK_COM_METHOD_ID);
    assert_eq!(signs_in_with(LoginCommand.run(&items[1].insert_text)), AUTH_METHOD_ID);
}

#[test]
fn login_command_x_aliases() {
    for arg in ["", "x", "xai", "grok", "  XAI  ", "Grok", "\tX\n", "\u{3000}grok\u{a0}"] {
        assert_eq!(
            LoginCommand.run(arg),
            CommandResult::Action(Action::LoginWithMethod(AuthMethodId::new(GROK_COM_METHOD_ID))),
            "argument {arg:?}"
        );
    }
}

#[test]
fn login_command_chatgpt_aliases() {
    for arg in ["chatgpt", "openai", "codex", "openai-codex", " ChatGPT ", "OpenAI-Codex", "CODEX\r\n"] {
        assert_eq!(
            LoginCommand.run(arg),
            CommandResult::Action(Action::LoginWithMethod(AuthMethodId::new(AUTH_METHOD_ID))),
            "argument {arg:?}"
        );
    }
    assert_eq!(signs_in_with(LoginCommand.run("chatgpt")), "openai-codex");
}

#[test]
fn login_command_refuses_unknown_provider() {
    assert_eq!(
        LoginCommand.run("  GitHub "),
        CommandResult::Error("Unknown login provider 'github'. Use xai or chatgpt.".to_string())
    );
    assert_eq!(
        LoginCommand.run("open ai"),
        CommandResult::Error("Unknown login provider 'open ai'. Use xai or chatgpt.".to_string())
    );
    // Only ASCII letters are lower-cased.
    assert_eq!(
        LoginCommand.run("ÇHATGPT"),
        CommandResult::Error("Unknown login provider 'Çhatgpt'. Use xai or chatgpt.".to_string())
    );
}

#[test]
fn login_command_normalizing_twice_changes_nothing() {
    for arg in ["  XaI ", "\u{2003}CHATgpt", "Bogus  Value ", ""] {
        let once = arg.trim().to_ascii_lowercase();
        assert_eq!(LoginCommand.run(&once), LoginCommand.run(arg), "argument {arg:?}");
    }
}

#[test]
fn login_command_match_words_sign_in_like_insert_text() {
    for item in LoginCommand.suggest_args("").unwrap() {
        let expected = LoginCommand.run(&item.insert_text);
        assert!(matches!(expected, CommandResult::Action(_)));
        for word in item.match_text.split_whitespace() {
            assert_eq!(LoginCommand.run(word), expected, "word {word:?}");
        }
    }
}
