//! The decisions of the interactive loop: the prompt, and what each line or
//! signal read from the terminal leads to.

use vstd::prelude::*;

use crate::cli::{base_url, search_word, Action, ActionModel};

verus! {

/// The prompt of the interactive loop.
pub struct DicPrompt {
    left: String,
    right: String,
}

impl View for DicPrompt {
    type V = (Seq<char>, Seq<char>);

    closed spec fn view(&self) -> (Seq<char>, Seq<char>) {
        (self.left@, self.right@)
    }
}

/// The history search indicator: `(reverse-search: term) `, with `failing `
/// before `reverse-search` while the search finds nothing.
pub open spec fn search_indicator(failing: bool, term: Seq<char>) -> Seq<char> {
    "("@ + (if failing {
        "failing "@
    } else {
        ""@
    }) + "reverse-search: "@ + term + ") "@
}

impl DicPrompt {
    pub fn new(left: String, right: String) -> (r: DicPrompt)
        ensures
            r@ == (left@, right@),
    {
        DicPrompt { left, right }
    }

    pub fn render_prompt_left(&self) -> (r: &str)
        ensures
            r@ == self@.0,
    {
        self.left.as_str()
    }

    pub fn render_prompt_right(&self) -> (r: &str)
        ensures
            r@ == self@.1,
    {
        self.right.as_str()
    }

    /// No indicator, whatever the edit mode.
    pub fn render_prompt_indicator(&self) -> (r: &'static str)
        ensures
            r@.len() == 0,
    {
        proof {
            reveal_strlit("");
        }
        ""
    }

    pub fn render_prompt_multiline_indicator(&self) -> (r: &'static str)
        ensures
            r@.len() == 0,
    {
        proof {
            reveal_strlit("");
        }
        ""
    }

    pub fn render_prompt_history_search_indicator(&self, failing: bool, term: &str) -> (r: String)
        ensures
            r@ == search_indicator(failing, term@),
    {
        let mut r = String::from_str("(");
        if failing {
            r.append("failing ");
        }
        r.append("reverse-search: ");
        r.append(term);
        r.append(") ");
        proof {
            if !failing {
                reveal_strlit("");
                assert(r@ =~= search_indicator(failing, term@));
            }
        }
        r
    }
}

/// What the terminal front end hands the loop.
#[derive(Clone, Debug)]
pub enum Signal {
    /// A line was read.
    Success(String),
    /// End of input.
    CtrlD,
    /// Interrupt.
    CtrlC,
}

/// What the loop does next.
#[derive(Clone, Debug)]
pub enum Step {
    /// Acknowledge the end of input and stop.
    Quit,
    /// Acknowledge the interrupt and read on.
    Interrupted,
    /// Nothing was typed: read on.
    Blank,
    /// Carry out the action, then read on.
    Run(Action),
    /// Report unbalanced quoting, then read on.
    QuotingError,
    /// Parse these arguments as a command line, then read on.
    ParseCommand(Vec<String>),
}

pub enum StepModel {
    Quit,
    Interrupted,
    Blank,
    Run(ActionModel),
    QuotingError,
    ParseCommand(Seq<Seq<char>>),
}

impl View for Step {
    type V = StepModel;

    open spec fn view(&self) -> StepModel {
        match self {
            Step::Quit => StepModel::Quit,
            Step::Interrupted => StepModel::Interrupted,
            Step::Blank => StepModel::Blank,
            Step::Run(a) => StepModel::Run(a@),
            Step::QuotingError => StepModel::QuotingError,
            Step::ParseCommand(args) => StepModel::ParseCommand(args.deep_view()),
        }
    }
}

/// The words of `s` under shell quoting rules, as `shlex::split` gives them;
/// `None` where the quoting is malformed.
pub uninterp spec fn shell_words(s: Seq<char>) -> Option<Seq<Seq<char>>>;

/// Whether `c` is whitespace: Unicode's `White_Space` property, as
/// `char::is_whitespace` gives it.
pub uninterp spec fn is_white_space(c: char) -> bool;

/// Relies on `char::is_whitespace`: the result depends on the character alone.
#[verifier::external_body]
fn is_whitespace(c: char) -> (r: bool)
    ensures
        r == is_white_space(c),
{
    c.is_whitespace()
}

/// `s` without its leading whitespace.
pub open spec fn trim_start(s: Seq<char>) -> Seq<char>
    decreases s.len(),
{
    if s.len() > 0 && is_white_space(s[0]) {
        trim_start(s.drop_first())
    } else {
        s
    }
}

/// `s` without its trailing whitespace.
pub open spec fn trim_end(s: Seq<char>) -> Seq<char>
    decreases s.len(),
{
    if s.len() > 0 && is_white_space(s.last()) {
        trim_end(s.drop_last())
    } else {
        s
    }
}

/// `s` without its leading and trailing whitespace.
pub open spec fn trimmed(s: Seq<char>) -> Seq<char> {
    trim_end(trim_start(s))
}

/// `s` without its leading and trailing whitespace (see `trimmed`).
pub fn trim(s: &str) -> (r: &str)
    ensures
        r@ == trimmed(s@),
{
    let n = s.unicode_len();
    let mut i: usize = 0;
    assert(s@.subrange(0, n as int) =~= s@);
    while i < n && is_whitespace(s.get_char(i))
        invariant
            i <= n,
            n == s@.len(),
            trim_start(s@) == trim_start(s@.subrange(i as int, n as int)),
        decreases n - i,
    {
        assert(s@.subrange(i as int, n as int).drop_first() =~= s@.subrange(i + 1, n as int));
        i = i + 1;
    }
    assert(trim_start(s@) == s@.subrange(i as int, n as int));
    let mut j: usize = n;
    while j > i && is_whitespace(s.get_char(j - 1))
        invariant
            i <= j <= n,
            n == s@.len(),
            trim_start(s@) == s@.subrange(i as int, n as int),
            trim_end(s@.subrange(i as int, n as int)) == trim_end(s@.subrange(i as int, j as int)),
        decreases j - i,
    {
        assert(s@.subrange(i as int, j as int).drop_last() =~= s@.subrange(i as int, j - 1));
        j = j - 1;
    }
    assert(trim_end(s@.subrange(i as int, j as int)) == s@.subrange(i as int, j as int));
    s.substring_char(i, j)
}

/// Relies on `shlex::split`: the words of the line, or `None` on malformed
/// quoting; the result depends on the characters alone.
#[verifier::external_body]
fn split_words(s: &str) -> (r: Option<Vec<String>>)
    ensures
        r.deep_view() == shell_words(s@),
{
    shlex::split(s)
}

/// The reserved top-level command words, offered for completion.
pub open spec fn command_words() -> Seq<Seq<char>> {
    seq!["help"@, "search"@, "glossary"@]
}

pub fn commands() -> (r: Vec<String>)
    ensures
        r.deep_view() == command_words(),
{
    let r = vec![String::from_str("help"), String::from_str("search"), String::from_str("glossary")];
    assert(r.deep_view() =~= command_words());
    r
}

fn contains(v: &Vec<String>, s: &String) -> (r: bool)
    ensures
        r == v.deep_view().contains(s@),
{
    let mut i: usize = 0;
    while i < v.len()
        invariant
            i <= v@.len(),
            forall|j: int| 0 <= j < i ==> v.deep_view()[j] != s@,
        decreases v@.len() - i,
    {
        if v[i] == *s {
            assert(v.deep_view()[i as int] == s@);
            return true;
        }
        i = i + 1;
    }
    false
}

/// What the words of a line ask for: one word that is not a reserved command
/// is a search for it; anything else is a command line for `dic`.
pub open spec fn tokens_step(tokens: Seq<Seq<char>>, commands: Seq<Seq<char>>) -> StepModel {
    if tokens.len() == 1 && !commands.contains(tokens[0]) {
        StepModel::Run(ActionModel::Fetch(base_url() + tokens[0]))
    } else {
        StepModel::ParseCommand(seq!["dic"@] + tokens)
    }
}

/// What the program's own arguments ask for: one word that is neither a
/// reserved command nor a flag (it starts with `-`) is a search for it;
/// anything else is a command line for `dic`.
pub open spec fn args_step(args: Seq<Seq<char>>, commands: Seq<Seq<char>>) -> StepModel {
    if args.len() == 1 && !commands.contains(args[0]) && !(args[0].len() > 0 && args[0][0]
        == '-') {
        StepModel::Run(ActionModel::Fetch(base_url() + args[0]))
    } else {
        StepModel::ParseCommand(seq!["dic"@] + args)
    }
}

/// What a line read in the loop asks for: nothing if it is blank once
/// trimmed, a quoting error if its words cannot be split, else what its words
/// ask for.
pub open spec fn line_step(line: Seq<char>, commands: Seq<Seq<char>>) -> StepModel {
    let t = trimmed(line);
    if t.len() == 0 {
        StepModel::Blank
    } else {
        match shell_words(t) {
            None => StepModel::QuotingError,
            Some(tokens) => tokens_step(tokens, commands),
        }
    }
}

/// Routes the words of a line (see `tokens_step`).
pub fn dispatch_tokens(tokens: Vec<String>, commands: &Vec<String>) -> (r: Step)
    ensures
        r@ == tokens_step(tokens.deep_view(), commands.deep_view()),
{
    if tokens.len() == 1 {
        let found = contains(commands, &tokens[0]);
        if !found {
            let mut tokens = tokens;
            let word = tokens.pop().unwrap();
            return Step::Run(search_word(word));
        }
    }
    let ghost t = tokens.deep_view();
    let mut args = tokens;
    args.insert(0, String::from_str("dic"));
    assert(args.deep_view() =~= seq!["dic"@] + t);
    Step::ParseCommand(args)
}

/// Routes the program's own arguments (see `args_step`).
pub fn dispatch_args(args: Vec<String>, commands: &Vec<String>) -> (r: Step)
    ensures
        r@ == args_step(args.deep_view(), commands.deep_view()),
{
    if args.len() == 1 {
        let is_flag = args[0].as_str().unicode_len() > 0 && args[0].as_str().get_char(0) == '-';
        if !is_flag {
            return dispatch_tokens(args, commands);
        }
    }
    let ghost t = args.deep_view();
    let mut command_line = args;
    command_line.insert(0, String::from_str("dic"));
    assert(command_line.deep_view() =~= seq!["dic"@] + t);
    Step::ParseCommand(command_line)
}

/// Routes a line read in the loop (see `line_step`).
pub fn dispatch_line(line: &str, commands: &Vec<String>) -> (r: Step)
    ensures
        r@ == line_step(line@, commands.deep_view()),
{
    let t = trim(line);
    if t.unicode_len() == 0 {
        return Step::Blank;
    }
    match split_words(t) {
        None => Step::QuotingError,
        Some(tokens) => dispatch_tokens(tokens, commands),
    }
}

/// One turn of the interactive loop: end of input stops it, an interrupt is
/// acknowledged, and a line is routed (see `line_step`). No line stops it.
pub fn repl_step(signal: Signal, commands: &Vec<String>) -> (r: Step)
    ensures
        signal is CtrlD <==> r is Quit,
        signal is CtrlC <==> r is Interrupted,
        signal matches Signal::Success(line) ==> r@ == line_step(line@, commands.deep_view()),
{
    match signal {
        Signal::Success(line) => dispatch_line(line.as_str(), commands),
        Signal::CtrlD => Step::Quit,
        Signal::CtrlC => Step::Interrupted,
    }
}

} // verus!
