//! The command grammar and what each command asks for.

use vstd::prelude::*;

verus! {

/// A parsed command line of the `dic` program.
#[derive(Clone, Debug)]
pub struct Cli {
    pub command: Option<Commands>,
}

/// The top-level commands.
#[derive(Clone, Debug)]
pub enum Commands {
    /// Search the given word.
    Search(WordArg),
    /// Glossary related commands.
    Glossary(GlossaryCommands),
}

/// The glossary commands.
#[derive(Clone, Debug)]
pub enum GlossaryCommands {
    /// Show the words in the glossary.
    Show,
    /// Add the given word to the glossary.
    Add(WordArg),
    /// Delete the given word from the glossary.
    Del(WordArg),
}

/// The word a command works on.
#[derive(Clone, Debug)]
pub struct WordArg {
    pub word: String,
}

/// What a command asks of the program.
#[derive(Clone, Debug)]
pub enum Action {
    /// Fetch this URL and render the answer.
    Fetch(String),
    /// Print this acknowledgment.
    Print(String),
    /// Enter the interactive loop.
    Repl,
}

pub enum ActionModel {
    Fetch(Seq<char>),
    Print(Seq<char>),
    Repl,
}

impl View for Action {
    type V = ActionModel;

    open spec fn view(&self) -> ActionModel {
        match self {
            Action::Fetch(u) => ActionModel::Fetch(u@),
            Action::Print(m) => ActionModel::Print(m@),
            Action::Repl => ActionModel::Repl,
        }
    }
}

/// Where the dictionary service answers for English words.
pub open spec fn base_url() -> Seq<char> {
    "https://api.dictionaryapi.dev/api/v2/entries/en/"@
}

/// The URL of the lookup of `word`: the word is appended as it is, without
/// any percent-encoding.
pub fn search_url(word: &str) -> (r: String)
    ensures
        r@ == base_url() + word@,
{
    let mut r = String::from_str("https://api.dictionaryapi.dev/api/v2/entries/en/");
    r.append(word);
    r
}

/// The lookup of `word`: one fetch of its URL.
pub fn search_word(word: String) -> (r: Action)
    ensures
        r@ == ActionModel::Fetch(base_url() + word@),
{
    Action::Fetch(search_url(word.as_str()))
}

/// What a parsed command line asks for.
pub open spec fn command_action(cli: Cli) -> ActionModel {
    match cli.command {
        None => ActionModel::Repl,
        Some(Commands::Search(arg)) => ActionModel::Fetch(base_url() + arg.word@),
        Some(Commands::Glossary(GlossaryCommands::Show)) => ActionModel::Print("Show"@),
        Some(Commands::Glossary(GlossaryCommands::Add(arg))) => ActionModel::Print(
            "Add: "@ + arg.word@,
        ),
        Some(Commands::Glossary(GlossaryCommands::Del(arg))) => ActionModel::Print(
            "Del: "@ + arg.word@,
        ),
    }
}

/// Routes a parsed command line: a search fetches the word, the glossary
/// commands only acknowledge what was asked, and no command enters the
/// interactive loop.
pub fn parse_command(cli: Cli) -> (r: Action)
    ensures
        r@ == command_action(cli),
{
    match cli.command {
        Some(Commands::Search(arg)) => search_word(arg.word),
        Some(Commands::Glossary(GlossaryCommands::Show)) => Action::Print(String::from_str("Show")),
        Some(Commands::Glossary(GlossaryCommands::Add(arg))) => {
            let mut m = String::from_str("Add: ");
            m.append(arg.word.as_str());
            Action::Print(m)
        },
        Some(Commands::Glossary(GlossaryCommands::Del(arg))) => {
            let mut m = String::from_str("Del: ");
            m.append(arg.word.as_str());
            Action::Print(m)
        },
        None => Action::Repl,
    }
}

} // verus!
