//! Rendering of the service's answers as a list of styled lines.

use vstd::prelude::*;

use crate::highlight::{
    delimited_at, is_whole_word_split, join_with, marks_of_split, pretty_example, regex_refused,
};
use crate::model::{Definition, ErrorMessage, License, Meaning, Phonetic, WordEntry};

verus! {

/// The colour of a line's value.
#[derive(Clone, Copy, Debug, PartialEq, Eq, Structural)]
pub enum Color {
    White,
    Blue,
    BoldBlue,
    Red,
    Green,
    Magenta,
    Cyan,
}

/// The caption in front of a line's value.
#[derive(Clone, Copy, Debug, PartialEq, Eq, Structural)]
pub enum Label {
    Word,
    Phonetic,
    Phonetics,
    Text,
    Audio,
    SourceUrl,
    License,
    Meanings,
    PartOfSpeech,
    Definition,
    Example,
    Synonyms,
    Antonyms,
    SourceUrls,
    Title,
    Message,
    Resolution,
    Plain,
}

impl Label {
    pub open spec fn spec_text(self) -> Seq<char> {
        match self {
            Label::Word => "Word: "@,
            Label::Phonetic => "Phonetic: "@,
            Label::Phonetics => "Phonetics:"@,
            Label::Text => "Text: "@,
            Label::Audio => "Audio: "@,
            Label::SourceUrl => "Source URL: "@,
            Label::License => "License: "@,
            Label::Meanings => "Meanings:"@,
            Label::PartOfSpeech => "Part of Speech: "@,
            Label::Definition => "Definition: "@,
            Label::Example => "Example: "@,
            Label::Synonyms => "Synonyms: "@,
            Label::Antonyms => "Antonyms: "@,
            Label::SourceUrls => "Source URLs:"@,
            Label::Title => "Title: "@,
            Label::Message => "Message: "@,
            Label::Resolution => "Resolution: "@,
            Label::Plain => ""@,
        }
    }

    /// The caption as printed.
    pub fn text(&self) -> (r: &'static str)
        ensures
            r@ == self.spec_text(),
    {
        match self {
            Label::Word => "Word: ",
            Label::Phonetic => "Phonetic: ",
            Label::Phonetics => "Phonetics:",
            Label::Text => "Text: ",
            Label::Audio => "Audio: ",
            Label::SourceUrl => "Source URL: ",
            Label::License => "License: ",
            Label::Meanings => "Meanings:",
            Label::PartOfSpeech => "Part of Speech: ",
            Label::Definition => "Definition: ",
            Label::Example => "Example: ",
            Label::Synonyms => "Synonyms: ",
            Label::Antonyms => "Antonyms: ",
            Label::SourceUrls => "Source URLs:",
            Label::Title => "Title: ",
            Label::Message => "Message: ",
            Label::Resolution => "Resolution: ",
            Label::Plain => "",
        }
    }
}

/// One output line: `indent` spaces, the label, then `text` in `color`.
/// Each mark (start, end) is a range of characters of `text` that stands out
/// in red: the looked-up word inside an example.
#[derive(Clone, Debug)]
pub struct Line {
    pub indent: usize,
    pub label: Label,
    pub text: String,
    pub color: Color,
    pub marks: Vec<(usize, usize)>,
}

/// What a line shows, marks aside.
pub struct LineModel {
    pub indent: nat,
    pub label: Label,
    pub text: Seq<char>,
    pub color: Color,
}

impl View for Line {
    type V = LineModel;

    open spec fn view(&self) -> LineModel {
        LineModel { indent: self.indent as nat, label: self.label, text: self.text@, color: self.color }
    }
}

/// What happened to an answer body.
#[derive(Clone, Debug)]
pub enum RenderOutcome {
    /// It held word entries, which were rendered.
    Rendered,
    /// It held the service's error message, which was rendered.
    RenderedError,
    /// It held neither; the raw body is handed back for display.
    Unparseable(String),
}

pub open spec fn line(indent: nat, label: Label, text: Seq<char>, color: Color) -> LineModel {
    LineModel { indent, label, text, color }
}

/// An empty separating line.
pub open spec fn blank() -> LineModel {
    line(0, Label::Plain, Seq::empty(), Color::White)
}

/// The models of a list of lines.
pub open spec fn models(ls: Seq<Line>) -> Seq<LineModel> {
    ls.map_values(|l: Line| l@)
}

/// The marks of `l` as the word `w` calls for: only an example line has
/// marks, each covers an occurrence of `w` delimited by word boundaries, and
/// where `w` is not empty and the search can be built they are exactly the
/// seams of the whole-word split of the example.
pub open spec fn marks_ok(l: Line, w: Seq<char>) -> bool {
    &&& forall|k: int|
        0 <= k < l.marks@.len() ==> #[trigger] l.marks@[k].1 == l.marks@[k].0 + w.len()
            && delimited_at(l.text@, w, l.marks@[k].0 as int)
    &&& l.label != Label::Example ==> l.marks@.len() == 0
    &&& l.label == Label::Example && w.len() > 0 && !regex_refused(w) ==> exists|p: Seq<Seq<char>>|
        is_whole_word_split(l.text@, w, p) && marks_of_split(l.marks@, p, w)
}

/// `after` is `before` with lines showing `added` appended, whose marks all
/// cover delimited occurrences of `w`.
pub open spec fn extends(before: Seq<Line>, after: Seq<Line>, added: Seq<LineModel>, w: Seq<char>) -> bool {
    &&& models(after) == models(before) + added
    &&& after.len() == before.len() + added.len()
    &&& forall|i: int| 0 <= i < before.len() ==> #[trigger] after[i] == before[i]
    &&& forall|i: int| before.len() <= i < after.len() ==> marks_ok(#[trigger] after[i], w)
}

pub open spec fn opt_line(indent: nat, label: Label, v: Option<String>, color: Color) -> Seq<LineModel> {
    match v {
        Some(t) => seq![line(indent, label, t@, color)],
        None => Seq::empty(),
    }
}

/// A terminal hyperlink (OSC 8) showing `text` and leading to `url`.
pub open spec fn hyperlink(text: Seq<char>, url: Seq<char>) -> Seq<char> {
    "\u{1b}]8;;"@ + url + "\u{1b}\\"@ + text + "\u{1b}]8;;\u{1b}\\"@
}

pub open spec fn license_line(indent: nat, l: Option<License>) -> Seq<LineModel> {
    match l {
        Some(l) => seq![line(indent, Label::License, hyperlink(l.name@, l.url@), Color::Green)],
        None => Seq::empty(),
    }
}

/// A line listing `items` joined by ", ", where there are any.
pub open spec fn list_line(indent: nat, label: Label, items: Vec<String>) -> Seq<LineModel> {
    if items@.len() > 0 {
        seq![line(indent, label, join_with(items.deep_view(), ", "@), Color::Cyan)]
    } else {
        Seq::empty()
    }
}

pub open spec fn phonetic_doc(p: Phonetic) -> Seq<LineModel> {
    opt_line(2, Label::Text, p.text, Color::Red) + (if p.audio@.len() > 0 {
        seq![line(2, Label::Audio, p.audio@, Color::Green)]
    } else {
        Seq::empty()
    }) + opt_line(2, Label::SourceUrl, p.source_url, Color::Green) + license_line(2, p.license)
        + seq![blank()]
}

pub open spec fn phonetics_doc(ps: Seq<Phonetic>) -> Seq<LineModel>
    decreases ps.len(),
{
    if ps.len() == 0 {
        Seq::empty()
    } else {
        phonetics_doc(ps.drop_last()) + phonetic_doc(ps.last())
    }
}

pub open spec fn definition_doc(d: Definition) -> Seq<LineModel> {
    seq![line(4, Label::Definition, d.definition@, Color::Blue)] + opt_line(
        4,
        Label::Example,
        d.example,
        Color::Cyan,
    ) + list_line(4, Label::Synonyms, d.synonyms) + list_line(4, Label::Antonyms, d.antonyms)
        + seq![blank()]
}

pub open spec fn definitions_doc(ds: Seq<Definition>) -> Seq<LineModel>
    decreases ds.len(),
{
    if ds.len() == 0 {
        Seq::empty()
    } else {
        definitions_doc(ds.drop_last()) + definition_doc(ds.last())
    }
}

pub open spec fn meaning_doc(m: Meaning) -> Seq<LineModel> {
    seq![line(2, Label::PartOfSpeech, m.part_of_speech@, Color::Magenta)] + definitions_doc(
        m.definitions@,
    )
}

pub open spec fn meanings_doc(ms: Seq<Meaning>) -> Seq<LineModel>
    decreases ms.len(),
{
    if ms.len() == 0 {
        Seq::empty()
    } else {
        meanings_doc(ms.drop_last()) + meaning_doc(ms.last())
    }
}

pub open spec fn urls_doc(us: Seq<String>) -> Seq<LineModel>
    decreases us.len(),
{
    if us.len() == 0 {
        Seq::empty()
    } else {
        urls_doc(us.drop_last()) + seq![line(2, Label::Plain, us.last()@, Color::Green)]
    }
}

pub open spec fn header_line(label: Label, present: bool) -> Seq<LineModel> {
    if present {
        seq![line(0, label, Seq::empty(), Color::White)]
    } else {
        Seq::empty()
    }
}

/// The lines of one entry, in order: the word, the phonetic spelling, the
/// phonetics, the meanings with their definitions, the license, the source
/// URLs, then a blank line.
pub open spec fn entry_doc(e: WordEntry) -> Seq<LineModel> {
    seq![line(0, Label::Word, e.word@, Color::BoldBlue)] + opt_line(
        0,
        Label::Phonetic,
        e.phonetic,
        Color::Red,
    ) + header_line(Label::Phonetics, e.phonetics@.len() > 0) + phonetics_doc(e.phonetics@)
        + header_line(Label::Meanings, true) + meanings_doc(e.meanings@) + license_line(0, e.license)
        + header_line(Label::SourceUrls, e.source_urls@.len() > 0) + urls_doc(e.source_urls@)
        + seq![blank()]
}

pub open spec fn entries_doc(es: Seq<WordEntry>) -> Seq<LineModel>
    decreases es.len(),
{
    if es.len() == 0 {
        Seq::empty()
    } else {
        entries_doc(es.drop_last()) + entry_doc(es.last())
    }
}

/// The lines of the service's error message: title, message, resolution.
pub open spec fn error_doc(m: ErrorMessage) -> Seq<LineModel> {
    seq![
        line(0, Label::Title, m.title@, Color::Red),
        line(0, Label::Message, m.message@, Color::Magenta),
        line(0, Label::Resolution, m.resolution@, Color::Green),
    ]
}

proof fn lemma_extends_refl(ls: Seq<Line>, w: Seq<char>)
    ensures
        extends(ls, ls, Seq::empty(), w),
{
    assert(models(ls) + Seq::empty() =~= models(ls));
}

proof fn lemma_extends_trans(
    a: Seq<Line>,
    b: Seq<Line>,
    c: Seq<Line>,
    x: Seq<LineModel>,
    y: Seq<LineModel>,
    w: Seq<char>,
)
    requires
        extends(a, b, x, w),
        extends(b, c, y, w),
    ensures
        extends(a, c, x + y, w),
{
    assert(models(a) + x + y =~= models(a) + (x + y));
    assert forall|i: int| a.len() <= i < c.len() implies marks_ok(#[trigger] c[i], w) by {
        if i < b.len() {
            assert(c[i] == b[i]);
        }
    }
}

fn pretty_print(
    out: &mut Vec<Line>,
    spaces: usize,
    label: Label,
    text: String,
    color: Color,
    Ghost(w): Ghost<Seq<char>>,
)
    requires
        label != Label::Example,
    ensures
        extends(old(out)@, final(out)@, seq![line(spaces as nat, label, text@, color)], w),
{
    let ghost before = out@;
    out.push(Line { indent: spaces, label, text, color, marks: Vec::new() });
    assert(models(out@) =~= models(before) + seq![line(spaces as nat, label, text@, color)]);
}

/// `items` joined by `sep`.
pub fn join_strings(items: &Vec<String>, sep: &str) -> (r: String)
    ensures
        r@ == join_with(items.deep_view(), sep@),
{
    let ghost p = items.deep_view();
    let mut r = String::new();
    let mut i: usize = 0;
    while i < items.len()
        invariant
            p == items.deep_view(),
            i <= items@.len(),
            r@ == join_with(p.take(i as int), sep@),
        decreases items@.len() - i,
    {
        assert(p.take(i + 1).drop_last() =~= p.take(i as int));
        if i > 0 {
            r.append(sep);
        } else {
            assert(r@ =~= Seq::empty());
        }
        r.append(items[i].as_str());
        i = i + 1;
    }
    assert(p.take(i as int) =~= p);
    r
}

/// Relies on terminal_link: `Link::new(name, url)` displays as the OSC 8
/// hyperlink `ESC ]8;; url ESC \ name ESC ]8;; ESC \`.
#[verifier::external_body]
fn format_license(license: &License) -> (r: String)
    ensures
        r@ == hyperlink(license.name@, license.url@),
{
    terminal_link::Link::new(license.name.as_str(), license.url.as_str()).to_string()
}

fn print_opt(
    out: &mut Vec<Line>,
    spaces: usize,
    label: Label,
    v: &Option<String>,
    color: Color,
    Ghost(w): Ghost<Seq<char>>,
)
    requires
        label != Label::Example,
    ensures
        extends(old(out)@, final(out)@, opt_line(spaces as nat, label, *v, color), w),
{
    match v {
        Some(t) => pretty_print(out, spaces, label, t.clone(), color, Ghost(w)),
        None => proof {
            lemma_extends_refl(out@, w);
        },
    }
}

fn print_license(
    out: &mut Vec<Line>,
    spaces: usize,
    license: &Option<License>,
    Ghost(w): Ghost<Seq<char>>,
)
    ensures
        extends(old(out)@, final(out)@, license_line(spaces as nat, *license), w),
{
    match license {
        Some(l) => pretty_print(out, spaces, Label::License, format_license(l), Color::Green, Ghost(w)),
        None => proof {
            lemma_extends_refl(out@, w);
        },
    }
}

fn print_phonetic(out: &mut Vec<Line>, p: &Phonetic, Ghost(w): Ghost<Seq<char>>)
    ensures
        extends(old(out)@, final(out)@, phonetic_doc(*p), w),
{
    let ghost s0 = out@;
    print_opt(out, 2, Label::Text, &p.text, Color::Red, Ghost(w));
    let ghost s1 = out@;
    let ghost d1 = opt_line(2, Label::Text, p.text, Color::Red);
    let ghost d2 = if p.audio@.len() > 0 {
        seq![line(2, Label::Audio, p.audio@, Color::Green)]
    } else {
        Seq::empty()
    };
    if p.audio.as_str().unicode_len() > 0 {
        pretty_print(out, 2, Label::Audio, p.audio.clone(), Color::Green, Ghost(w));
    } else {
        proof {
            lemma_extends_refl(out@, w);
        }
    }
    proof {
        lemma_extends_trans(s0, s1, out@, d1, d2, w);
    }
    let ghost s2 = out@;
    print_opt(out, 2, Label::SourceUrl, &p.source_url, Color::Green, Ghost(w));
    let ghost d3 = opt_line(2, Label::SourceUrl, p.source_url, Color::Green);
    proof {
        lemma_extends_trans(s0, s2, out@, d1 + d2, d3, w);
    }
    let ghost s3 = out@;
    print_license(out, 2, &p.license, Ghost(w));
    proof {
        lemma_extends_trans(s0, s3, out@, d1 + d2 + d3, license_line(2, p.license), w);
    }
    let ghost s4 = out@;
    pretty_print(out, 0, Label::Plain, String::new(), Color::White, Ghost(w));
    proof {
        lemma_extends_trans(s0, s4, out@, d1 + d2 + d3 + license_line(2, p.license), seq![blank()], w);
        assert(phonetic_doc(*p) == d1 + d2 + d3 + license_line(2, p.license) + seq![blank()]);
    }
}

fn print_list(out: &mut Vec<Line>, label: Label, items: &Vec<String>, Ghost(w): Ghost<Seq<char>>)
    requires
        label != Label::Example,
    ensures
        extends(old(out)@, final(out)@, list_line(4, label, *items), w),
{
    if items.len() > 0 {
        pretty_print(out, 4, label, join_strings(items, ", "), Color::Cyan, Ghost(w));
    } else {
        proof {
            lemma_extends_refl(out@, w);
        }
    }
}

fn print_example(out: &mut Vec<Line>, example: &Option<String>, word: &String)
    ensures
        extends(old(out)@, final(out)@, opt_line(4, Label::Example, *example, Color::Cyan), word@),
{
    match example {
        Some(t) => {
            let ghost before = out@;
            let marks = pretty_example(t.as_str(), word.as_str());
            let example_line = Line {
                indent: 4,
                label: Label::Example,
                text: t.clone(),
                color: Color::Cyan,
                marks,
            };
            proof {
                if word@.len() > 0 && !regex_refused(word@) {
                    let p = choose|p: Seq<Seq<char>>|
                        is_whole_word_split(t@, word@, p) && marks_of_split(marks@, p, word@);
                    assert(is_whole_word_split(example_line.text@, word@, p) && marks_of_split(
                        example_line.marks@,
                        p,
                        word@,
                    ));
                }
            }
            assert(marks_ok(example_line, word@));
            out.push(example_line);
            assert(models(out@) =~= models(before) + seq![line(4, Label::Example, t@, Color::Cyan)]);
        },
        None => proof {
            lemma_extends_refl(out@, word@);
        },
    }
}

fn print_definition(out: &mut Vec<Line>, d: &Definition, word: &String)
    ensures
        extends(old(out)@, final(out)@, definition_doc(*d), word@),
{
    let ghost w = word@;
    let ghost s0 = out@;
    let ghost d1 = seq![line(4, Label::Definition, d.definition@, Color::Blue)];
    pretty_print(out, 4, Label::Definition, d.definition.clone(), Color::Blue, Ghost(w));
    let ghost s1 = out@;
    let ghost d2 = opt_line(4, Label::Example, d.example, Color::Cyan);
    print_example(out, &d.example, word);
    proof {
        lemma_extends_trans(s0, s1, out@, d1, d2, w);
    }
    let ghost s2 = out@;
    let ghost d3 = list_line(4, Label::Synonyms, d.synonyms);
    print_list(out, Label::Synonyms, &d.synonyms, Ghost(w));
    proof {
        lemma_extends_trans(s0, s2, out@, d1 + d2, d3, w);
    }
    let ghost s3 = out@;
    let ghost d4 = list_line(4, Label::Antonyms, d.antonyms);
    print_list(out, Label::Antonyms, &d.antonyms, Ghost(w));
    proof {
        lemma_extends_trans(s0, s3, out@, d1 + d2 + d3, d4, w);
    }
    let ghost s4 = out@;
    pretty_print(out, 0, Label::Plain, String::new(), Color::White, Ghost(w));
    proof {
        lemma_extends_trans(s0, s4, out@, d1 + d2 + d3 + d4, seq![blank()], w);
        assert(definition_doc(*d) == d1 + d2 + d3 + d4 + seq![blank()]);
    }
}

fn print_meaning(out: &mut Vec<Line>, m: &Meaning, word: &String)
    ensures
        extends(old(out)@, final(out)@, meaning_doc(*m), word@),
{
    let ghost w = word@;
    let ghost s0 = out@;
    let ghost d1 = seq![line(2, Label::PartOfSpeech, m.part_of_speech@, Color::Magenta)];
    pretty_print(out, 2, Label::PartOfSpeech, m.part_of_speech.clone(), Color::Magenta, Ghost(w));
    let ghost s1 = out@;
    let ghost ds = m.definitions@;
    proof {
        lemma_extends_refl(s1, w);
    }
    let mut i: usize = 0;
    while i < m.definitions.len()
        invariant
            ds == m.definitions@,
            i <= ds.len(),
            w == word@,
            extends(s1, out@, definitions_doc(ds.take(i as int)), w),
        decreases ds.len() - i,
    {
        let ghost si = out@;
        print_definition(out, &m.definitions[i], word);
        proof {
            lemma_extends_trans(s1, si, out@, definitions_doc(ds.take(i as int)), definition_doc(ds[i as int]), w);
            assert(ds.take(i + 1).drop_last() =~= ds.take(i as int));
        }
        i = i + 1;
    }
    proof {
        assert(ds.take(i as int) =~= ds);
        lemma_extends_trans(s0, s1, out@, d1, definitions_doc(ds), w);
    }
}

fn print_phonetics(out: &mut Vec<Line>, ps: &Vec<Phonetic>, Ghost(w): Ghost<Seq<char>>)
    ensures
        extends(old(out)@, final(out)@, phonetics_doc(ps@), w),
{
    let ghost s0 = out@;
    proof {
        lemma_extends_refl(s0, w);
    }
    let mut i: usize = 0;
    while i < ps.len()
        invariant
            i <= ps@.len(),
            extends(s0, out@, phonetics_doc(ps@.take(i as int)), w),
        decreases ps@.len() - i,
    {
        let ghost si = out@;
        print_phonetic(out, &ps[i], Ghost(w));
        proof {
            lemma_extends_trans(s0, si, out@, phonetics_doc(ps@.take(i as int)), phonetic_doc(ps@[i as int]), w);
            assert(ps@.take(i + 1).drop_last() =~= ps@.take(i as int));
        }
        i = i + 1;
    }
    proof {
        assert(ps@.take(i as int) =~= ps@);
    }
}

fn print_meanings(out: &mut Vec<Line>, ms: &Vec<Meaning>, word: &String)
    ensures
        extends(old(out)@, final(out)@, meanings_doc(ms@), word@),
{
    let ghost w = word@;
    let ghost s0 = out@;
    proof {
        lemma_extends_refl(s0, w);
    }
    let mut i: usize = 0;
    while i < ms.len()
        invariant
            i <= ms@.len(),
            w == word@,
            extends(s0, out@, meanings_doc(ms@.take(i as int)), w),
        decreases ms@.len() - i,
    {
        let ghost si = out@;
        print_meaning(out, &ms[i], word);
        proof {
            lemma_extends_trans(s0, si, out@, meanings_doc(ms@.take(i as int)), meaning_doc(ms@[i as int]), w);
            assert(ms@.take(i + 1).drop_last() =~= ms@.take(i as int));
        }
        i = i + 1;
    }
    proof {
        assert(ms@.take(i as int) =~= ms@);
    }
}

fn print_source_urls(out: &mut Vec<Line>, us: &Vec<String>, Ghost(w): Ghost<Seq<char>>)
    ensures
        extends(
            old(out)@,
            final(out)@,
            header_line(Label::SourceUrls, us@.len() > 0) + urls_doc(us@),
            w,
        ),
{
    let ghost s0 = out@;
    if us.len() == 0 {
        proof {
            lemma_extends_refl(s0, w);
            assert(header_line(Label::SourceUrls, false) + urls_doc(us@) =~= Seq::empty());
        }
        return;
    }
    pretty_print(out, 0, Label::SourceUrls, String::new(), Color::White, Ghost(w));
    let ghost s1 = out@;
    proof {
        lemma_extends_refl(s1, w);
    }
    let mut i: usize = 0;
    while i < us.len()
        invariant
            i <= us@.len(),
            extends(s1, out@, urls_doc(us@.take(i as int)), w),
        decreases us@.len() - i,
    {
        let ghost si = out@;
        pretty_print(out, 2, Label::Plain, us[i].clone(), Color::Green, Ghost(w));
        proof {
            lemma_extends_trans(s1, si, out@, urls_doc(us@.take(i as int)), seq![line(2, Label::Plain, us@[i as int]@, Color::Green)], w);
            assert(us@.take(i + 1).drop_last() =~= us@.take(i as int));
        }
        i = i + 1;
    }
    proof {
        assert(us@.take(i as int) =~= us@);
        lemma_extends_trans(s0, s1, out@, header_line(Label::SourceUrls, true), urls_doc(us@), w);
    }
}

/// Appends the lines of `entry` (see `entry_doc`); the marks of its examples
/// cover the entry's word, and only where it stands as a whole word.
pub fn print_word_entry(out: &mut Vec<Line>, entry: &WordEntry)
    ensures
        extends(old(out)@, final(out)@, entry_doc(*entry), entry.word@),
{
    let ghost w = entry.word@;
    let ghost s0 = out@;
    let ghost d1 = seq![line(0, Label::Word, entry.word@, Color::BoldBlue)];
    pretty_print(out, 0, Label::Word, entry.word.clone(), Color::BoldBlue, Ghost(w));
    let ghost s1 = out@;
    let ghost d2 = opt_line(0, Label::Phonetic, entry.phonetic, Color::Red);
    print_opt(out, 0, Label::Phonetic, &entry.phonetic, Color::Red, Ghost(w));
    proof {
        lemma_extends_trans(s0, s1, out@, d1, d2, w);
    }
    let ghost s2 = out@;
    let ghost d3 = header_line(Label::Phonetics, entry.phonetics@.len() > 0);
    if entry.phonetics.len() > 0 {
        pretty_print(out, 0, Label::Phonetics, String::new(), Color::White, Ghost(w));
    } else {
        proof {
            lemma_extends_refl(s2, w);
        }
    }
    proof {
        lemma_extends_trans(s0, s2, out@, d1 + d2, d3, w);
    }
    let ghost s3 = out@;
    let ghost d4 = phonetics_doc(entry.phonetics@);
    print_phonetics(out, &entry.phonetics, Ghost(w));
    proof {
        lemma_extends_trans(s0, s3, out@, d1 + d2 + d3, d4, w);
    }
    let ghost s4 = out@;
    let ghost d5 = header_line(Label::Meanings, true);
    pretty_print(out, 0, Label::Meanings, String::new(), Color::White, Ghost(w));
    proof {
        lemma_extends_trans(s0, s4, out@, d1 + d2 + d3 + d4, d5, w);
    }
    let ghost s5 = out@;
    let ghost d6 = meanings_doc(entry.meanings@);
    print_meanings(out, &entry.meanings, &entry.word);
    proof {
        lemma_extends_trans(s0, s5, out@, d1 + d2 + d3 + d4 + d5, d6, w);
    }
    let ghost s6 = out@;
    let ghost d7 = license_line(0, entry.license);
    print_license(out, 0, &entry.license, Ghost(w));
    proof {
        lemma_extends_trans(s0, s6, out@, d1 + d2 + d3 + d4 + d5 + d6, d7, w);
    }
    let ghost s7 = out@;
    let ghost d8 = header_line(Label::SourceUrls, entry.source_urls@.len() > 0) + urls_doc(entry.source_urls@);
    print_source_urls(out, &entry.source_urls, Ghost(w));
    proof {
        lemma_extends_trans(s0, s7, out@, d1 + d2 + d3 + d4 + d5 + d6 + d7, d8, w);
    }
    let ghost s8 = out@;
    pretty_print(out, 0, Label::Plain, String::new(), Color::White, Ghost(w));
    proof {
        lemma_extends_trans(s0, s8, out@, d1 + d2 + d3 + d4 + d5 + d6 + d7 + d8, seq![blank()], w);
        assert(entry_doc(*entry) =~= d1 + d2 + d3 + d4 + d5 + d6 + d7 + d8 + seq![blank()]);
    }
}

/// Where the lines of entry `j` of `es` start in `entries_doc(es)`.
pub open spec fn entry_offset(es: Seq<WordEntry>, j: int) -> int {
    entries_doc(es.take(j)).len() as int
}

/// From `base` on, the lines of each of the first `n` entries of `es` carry
/// the marks that the entry's own word calls for.
pub open spec fn entries_marked(ls: Seq<Line>, base: int, es: Seq<WordEntry>, n: int) -> bool {
    forall|j: int, i: int|
        0 <= j < n && base + entry_offset(es, j) <= i < base + entry_offset(es, j) + entry_doc(
            es[j],
        ).len() ==> #[trigger] marks_ok(ls[i], es[j].word@)
}

proof fn lemma_entry_offset_step(es: Seq<WordEntry>, j: int)
    requires
        0 <= j < es.len(),
    ensures
        entry_offset(es, j + 1) == entry_offset(es, j) + entry_doc(es[j]).len(),
{
    assert(es.take(j + 1).drop_last() =~= es.take(j));
}

proof fn lemma_entry_offset_monotone(es: Seq<WordEntry>, j: int, k: int)
    requires
        0 <= j < k <= es.len(),
    ensures
        entry_offset(es, j) + entry_doc(es[j]).len() <= entry_offset(es, k),
    decreases k - j,
{
    lemma_entry_offset_step(es, j);
    if j + 1 < k {
        lemma_entry_offset_monotone(es, j + 1, k);
        lemma_entry_offset_step(es, j + 1);
    }
}

/// Appends the lines of each entry in turn (see `entries_doc`); the lines of
/// each entry carry the marks that its own word calls for.
pub fn print_word_entries(out: &mut Vec<Line>, word_entries: &Vec<WordEntry>)
    ensures
        models(final(out)@) == models(old(out)@) + entries_doc(word_entries@),
        final(out)@.len() == old(out)@.len() + entries_doc(word_entries@).len(),
        forall|i: int| 0 <= i < old(out)@.len() ==> #[trigger] final(out)@[i] == old(out)@[i],
        entries_marked(final(out)@, old(out)@.len() as int, word_entries@, word_entries@.len() as int),
{
    let ghost es = word_entries@;
    let ghost s0 = out@;
    let ghost base = s0.len() as int;
    let mut i: usize = 0;
    proof {
        assert(models(s0) + Seq::empty() =~= models(s0));
        assert(es.take(0) =~= Seq::<WordEntry>::empty());
    }
    while i < word_entries.len()
        invariant
            es == word_entries@,
            base == s0.len(),
            i <= es.len(),
            models(out@) == models(s0) + entries_doc(es.take(i as int)),
            out@.len() == s0.len() + entries_doc(es.take(i as int)).len(),
            forall|j: int| 0 <= j < s0.len() ==> #[trigger] out@[j] == s0[j],
            entries_marked(out@, base, es, i as int),
        decreases es.len() - i,
    {
        let ghost si = out@;
        print_word_entry(out, &word_entries[i]);
        proof {
            assert(es.take(i + 1).drop_last() =~= es.take(i as int));
            assert(models(s0) + entries_doc(es.take(i as int)) + entry_doc(es[i as int]) =~= models(
                s0,
            ) + entries_doc(es.take(i + 1)));
            assert(si.len() == base + entry_offset(es, i as int));
            assert forall|j: int, k: int|
                0 <= j < i + 1 && base + entry_offset(es, j) <= k < base + entry_offset(es, j)
                    + entry_doc(es[j]).len() implies #[trigger] marks_ok(out@[k], es[j].word@) by {
                if j < i {
                    lemma_entry_offset_monotone(es, j, i as int);
                    assert(out@[k] == si[k]);
                }
            }
        }
        i = i + 1;
    }
    proof {
        assert(es.take(i as int) =~= es);
    }
}

/// Appends the title, the message and the resolution (see `error_doc`).
pub fn print_error_message(out: &mut Vec<Line>, error_message: &ErrorMessage)
    ensures
        extends(old(out)@, final(out)@, error_doc(*error_message), Seq::empty()),
{
    let ghost w = Seq::<char>::empty();
    let ghost s0 = out@;
    let ghost d1 = seq![line(0, Label::Title, error_message.title@, Color::Red)];
    let ghost d2 = seq![line(0, Label::Message, error_message.message@, Color::Magenta)];
    let ghost d3 = seq![line(0, Label::Resolution, error_message.resolution@, Color::Green)];
    pretty_print(out, 0, Label::Title, error_message.title.clone(), Color::Red, Ghost(w));
    let ghost s1 = out@;
    pretty_print(out, 0, Label::Message, error_message.message.clone(), Color::Magenta, Ghost(w));
    proof {
        lemma_extends_trans(s0, s1, out@, d1, d2, w);
    }
    let ghost s2 = out@;
    pretty_print(out, 0, Label::Resolution, error_message.resolution.clone(), Color::Green, Ghost(w));
    proof {
        lemma_extends_trans(s0, s2, out@, d1 + d2, d3, w);
        assert(error_doc(*error_message) =~= d1 + d2 + d3);
    }
}

/// Renders an answer body from the outcomes of reading it as a list of word
/// entries and as an error message: the entries where the first succeeded,
/// else the error message where the second did, else nothing, and the raw
/// body is handed back.
pub fn process(
    body: String,
    entries: Option<Vec<WordEntry>>,
    error: Option<ErrorMessage>,
    out: &mut Vec<Line>,
) -> (r: RenderOutcome)
    ensures
        entries matches Some(es) ==> r is Rendered && models(final(out)@) == models(old(out)@)
            + entries_doc(es@),
        entries matches Some(es) ==> entries_marked(
            final(out)@,
            old(out)@.len() as int,
            es@,
            es@.len() as int,
        ),
        entries is None ==> forall|i: int|
            old(out)@.len() <= i < final(out)@.len() ==> (#[trigger] final(out)@[i]).marks@.len()
                == 0,
        entries is None ==> (error matches Some(m) ==> r is RenderedError && models(final(out)@)
            == models(old(out)@) + error_doc(m)),
        entries is None && error is None ==> final(out)@ == old(out)@,
        entries is None && error is None ==> (r matches RenderOutcome::Unparseable(b) && b@
            == body@),
{
    match entries {
        Some(es) => {
            print_word_entries(out, &es);
            RenderOutcome::Rendered
        },
        None => match error {
            Some(m) => {
                let ghost before = out@;
                print_error_message(out, &m);
                proof {
                    assert forall|i: int|
                        before.len() <= i < out@.len() implies (#[trigger] out@[i]).marks@.len()
                        == 0 by {
                        assert(models(out@)[i] == out@[i]@);
                        assert(marks_ok(out@[i], Seq::empty()));
                    }
                }
                RenderOutcome::RenderedError
            },
            None => RenderOutcome::Unparseable(body),
        },
    }
}

} // verus!
