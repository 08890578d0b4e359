use dic::cli::{parse_command, search_url, search_word, Action, Cli, Commands, GlossaryCommands, WordArg};
use dic::repl::{commands, dispatch_args, dispatch_line, dispatch_tokens, repl_step, DicPrompt, Signal, Step};

fn s(x: &str) -> String {
    x.to_string()
}

fn fetched(step: Step) -> String {
    match step {
        Step::Run(Action::Fetch(url)) => url,
        _ => panic!("expected a fetch"),
    }
}

fn parse_args(step: Step) -> Vec<String> {
    match step {
        Step::ParseCommand(args) => args,
        _ => panic!("expected a command line"),
    }
}

#[test]
fn scenario_search_command_and_bare_word_fetch_the_same() {
    let cmds = commands();
    let bare = fetched(dispatch_line("foo", &cmds));
    let args = parse_args(dispatch_line("search foo", &cmds));
    assert_eq!(args, vec![s("dic"), s("search"), s("foo")]);
    let cli = Cli { command: Some(Commands::Search(WordArg { word: args[2].clone() })) };
    let via_command = match parse_command(cli) {
        Action::Fetch(url) => url,
        _ => panic!("expected a fetch"),
    };
    assert_eq!(bare, via_command);
    assert_eq!(bare, "https://api.dictionaryapi.dev/api/v2/entries/en/foo");
}

#[test]
fn scenario_unbalanced_quote_is_a_quoting_error() {
    let cmds = commands();
    assert!(matches!(dispatch_line("\"unterminated", &cmds), Step::QuotingError));
    assert!(matches!(repl_step(Signal::Success(s("\"unterminated")), &cmds), Step::QuotingError));
    assert!(matches!(repl_step(Signal::Success(s("foo")), &cmds), Step::Run(_)));
}

#[test]
fn signals_end_or_continue_the_loop() {
    let cmds = commands();
    assert!(matches!(repl_step(Signal::CtrlD, &cmds), Step::Quit));
    assert!(matches!(repl_step(Signal::CtrlC, &cmds), Step::Interrupted));
    assert!(matches!(repl_step(Signal::Success(s("   ")), &cmds), Step::Blank));
    assert!(matches!(repl_step(Signal::Success(s("")), &cmds), Step::Blank));
}

#[test]
fn line_is_trimmed_before_routing() {
    let cmds = commands();
    assert_eq!(
        fetched(dispatch_line("  foo \t", &cmds)),
        "https://api.dictionaryapi.dev/api/v2/entries/en/foo"
    );
}

#[test]
fn quoted_words_are_one_token() {
    let cmds = commands();
    assert_eq!(
        fetched(dispatch_line("'ice cream'", &cmds)),
        "https://api.dictionaryapi.dev/api/v2/entries/en/ice cream"
    );
    assert_eq!(parse_args(dispatch_line("glossary add \"x y\"", &cmds)), vec![
        s("dic"),
        s("glossary"),
        s("add"),
        s("x y"),
    ]);
}

#[test]
fn reserved_word_alone_is_a_command_line() {
    let cmds = commands();
    assert_eq!(parse_args(dispatch_line("help", &cmds)), vec![s("dic"), s("help")]);
    assert_eq!(parse_args(dispatch_line("glossary", &cmds)), vec![s("dic"), s("glossary")]);
    assert_eq!(parse_args(dispatch_tokens(vec![], &cmds)), vec![s("dic")]);
}

#[test]
fn command_vocabulary() {
    assert_eq!(commands(), vec![s("help"), s("search"), s("glossary")]);
}

#[test]
fn url_is_not_encoded() {
    assert_eq!(search_url("a b/c"), "https://api.dictionaryapi.dev/api/v2/entries/en/a b/c");
    assert!(matches!(search_word(s("x")), Action::Fetch(u) if u.ends_with("/en/x")));
}

#[test]
fn glossary_commands_acknowledge() {
    let show = Cli { command: Some(Commands::Glossary(GlossaryCommands::Show)) };
    let add = Cli { command: Some(Commands::Glossary(GlossaryCommands::Add(WordArg { word: s("w") }))) };
    let del = Cli { command: Some(Commands::Glossary(GlossaryCommands::Del(WordArg { word: s("w") }))) };
    assert!(matches!(parse_command(show), Action::Print(m) if m == "Show"));
    assert!(matches!(parse_command(add), Action::Print(m) if m == "Add: w"));
    assert!(matches!(parse_command(del), Action::Print(m) if m == "Del: w"));
    assert!(matches!(parse_command(Cli { command: None }), Action::Repl));
}

#[test]
fn prompt_parts() {
    let p = DicPrompt::new(s(">> "), s("r"));
    assert_eq!(p.render_prompt_left(), ">> ");
    assert_eq!(p.render_prompt_right(), "r");
    assert_eq!(p.render_prompt_indicator(), "");
    assert_eq!(p.render_prompt_multiline_indicator(), "");
    assert_eq!(p.render_prompt_history_search_indicator(false, "ab"), "(reverse-search: ab) ");
    assert_eq!(p.render_prompt_history_search_indicator(true, "ab"), "(failing reverse-search: ab) ");
}

#[test]
fn program_flags_go_to_the_command_parser() {
    let cmds = commands();
    assert_eq!(parse_args(dispatch_args(vec![s("--help")], &cmds)), vec![s("dic"), s("--help")]);
    assert_eq!(parse_args(dispatch_args(vec![s("-V")], &cmds)), vec![s("dic"), s("-V")]);
    assert_eq!(
        fetched(dispatch_args(vec![s("foo")], &cmds)),
        "https://api.dictionaryapi.dev/api/v2/entries/en/foo"
    );
    assert_eq!(parse_args(dispatch_args(vec![s("search"), s("foo")], &cmds)), vec![
        s("dic"),
        s("search"),
        s("foo"),
    ]);
    assert_eq!(parse_args(dispatch_args(vec![], &cmds)), vec![s("dic")]);
}

#[test]
fn unicode_whitespace_is_trimmed() {
    let cmds = commands();
    assert!(matches!(dispatch_line("\u{3000}\t\n", &cmds), Step::Blank));
    assert_eq!(
        fetched(dispatch_line("\u{a0}foo\u{2003}", &cmds)),
        "https://api.dictionaryapi.dev/api/v2/entries/en/foo"
    );
}
