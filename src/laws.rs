//! Laws of the rendering and of the command routing.

use vstd::prelude::*;

use crate::cli::{command_action, Cli, Commands, WordArg};
use crate::model::{Definition, ErrorMessage, Meaning, Phonetic, WordEntry};
use crate::render::{
    blank, definition_doc, definitions_doc, entry_doc, error_doc, header_line, license_line, line,
    list_line, meaning_doc, meanings_doc, opt_line, phonetic_doc, phonetics_doc, urls_doc, Color,
    Label, LineModel,
};
use crate::repl::{command_words, is_white_space, line_step, tokens_step, trim_start, trimmed, StepModel};

verus! {

/// The texts of the lines of `doc` that carry `label`, in order.
pub open spec fn texts_with(doc: Seq<LineModel>, label: Label) -> Seq<Seq<char>>
    decreases doc.len(),
{
    if doc.len() == 0 {
        Seq::empty()
    } else {
        texts_with(doc.drop_last(), label) + (if doc.last().label == label {
            seq![doc.last().text]
        } else {
            Seq::empty()
        })
    }
}

pub open spec fn opt_text(o: Option<String>) -> Seq<Seq<char>> {
    match o {
        Some(t) => seq![t@],
        None => Seq::empty(),
    }
}

/// The spellings of the phonetics that have one, in order.
pub open spec fn phonetic_texts(ps: Seq<Phonetic>) -> Seq<Seq<char>>
    decreases ps.len(),
{
    if ps.len() == 0 {
        Seq::empty()
    } else {
        phonetic_texts(ps.drop_last()) + opt_text(ps.last().text)
    }
}

/// The non-empty audio links of the phonetics, in order.
pub open spec fn audio_texts(ps: Seq<Phonetic>) -> Seq<Seq<char>>
    decreases ps.len(),
{
    if ps.len() == 0 {
        Seq::empty()
    } else {
        audio_texts(ps.drop_last()) + (if ps.last().audio@.len() > 0 {
            seq![ps.last().audio@]
        } else {
            Seq::empty()
        })
    }
}

/// The texts of the definitions, in order.
pub open spec fn definition_texts(ds: Seq<Definition>) -> Seq<Seq<char>>
    decreases ds.len(),
{
    if ds.len() == 0 {
        Seq::empty()
    } else {
        definition_texts(ds.drop_last()) + seq![ds.last().definition@]
    }
}

/// The texts of the definitions of all meanings, in order.
pub open spec fn meaning_definition_texts(ms: Seq<Meaning>) -> Seq<Seq<char>>
    decreases ms.len(),
{
    if ms.len() == 0 {
        Seq::empty()
    } else {
        meaning_definition_texts(ms.drop_last()) + definition_texts(ms.last().definitions@)
    }
}

proof fn lemma_texts_concat(a: Seq<LineModel>, b: Seq<LineModel>, label: Label)
    ensures
        texts_with(a + b, label) == texts_with(a, label) + texts_with(b, label),
    decreases b.len(),
{
    if b.len() == 0 {
        assert(a + b =~= a);
        assert(texts_with(a, label) + texts_with(b, label) =~= texts_with(a, label));
    } else {
        assert((a + b).drop_last() =~= a + b.drop_last());
        lemma_texts_concat(a, b.drop_last(), label);
        let tail = if b.last().label == label {
            seq![b.last().text]
        } else {
            Seq::<Seq<char>>::empty()
        };
        assert(texts_with(a, label) + texts_with(b.drop_last(), label) + tail =~= texts_with(a, label)
            + (texts_with(b.drop_last(), label) + tail));
    }
}

proof fn lemma_texts_single(x: LineModel, label: Label)
    ensures
        texts_with(seq![x], label) == (if x.label == label {
            seq![x.text]
        } else {
            Seq::empty()
        }),
{
    let s = seq![x];
    assert(s.drop_last() =~= Seq::<LineModel>::empty());
    assert(s.last() == x);
    assert(texts_with(s.drop_last(), label) == Seq::<Seq<char>>::empty());
    assert(Seq::<Seq<char>>::empty() + seq![x.text] =~= seq![x.text]);
    assert(Seq::<Seq<char>>::empty() + Seq::<Seq<char>>::empty() =~= Seq::<Seq<char>>::empty());
}

proof fn lemma_texts_opt(indent: nat, l: Label, v: Option<String>, color: Color, label: Label)
    ensures
        texts_with(opt_line(indent, l, v, color), label) == (if l == label {
            opt_text(v)
        } else {
            Seq::empty()
        }),
{
    if let Some(t) = v {
        lemma_texts_single(line(indent, l, t@, color), label);
    }
}

/// The labels of the lines that a phonetic can produce.
pub open spec fn phonetic_label(l: Label) -> bool {
    l == Label::Text || l == Label::Audio || l == Label::SourceUrl || l == Label::License || l
        == Label::Plain
}

proof fn lemma_texts_phonetic(p: Phonetic, label: Label)
    requires
        label == Label::Text || label == Label::Audio || !phonetic_label(label),
    ensures
        texts_with(phonetic_doc(p), label) == (if label == Label::Text {
            opt_text(p.text)
        } else if label == Label::Audio {
            phonetic_texts_audio(p)
        } else {
            Seq::empty()
        }),
{
    let d1 = opt_line(2, Label::Text, p.text, Color::Red);
    let d2 = if p.audio@.len() > 0 {
        seq![line(2, Label::Audio, p.audio@, Color::Green)]
    } else {
        Seq::empty()
    };
    let d3 = opt_line(2, Label::SourceUrl, p.source_url, Color::Green);
    let d4 = license_line(2, p.license);
    let d5 = seq![blank()];
    lemma_texts_concat(d1, d2, label);
    lemma_texts_concat(d1 + d2, d3, label);
    lemma_texts_concat(d1 + d2 + d3, d4, label);
    lemma_texts_concat(d1 + d2 + d3 + d4, d5, label);
    lemma_texts_opt(2, Label::Text, p.text, Color::Red, label);
    lemma_texts_opt(2, Label::SourceUrl, p.source_url, Color::Green, label);
    if p.audio@.len() > 0 {
        lemma_texts_single(line(2, Label::Audio, p.audio@, Color::Green), label);
    }
    if let Some(l) = p.license {
        lemma_texts_single(d4[0], label);
        assert(d4 == seq![d4[0]]);
    }
    lemma_texts_single(blank(), label);
    assert(texts_with(phonetic_doc(p), label) =~= texts_with(d1, label) + texts_with(d2, label)
        + texts_with(d3, label) + texts_with(d4, label) + texts_with(d5, label));
}

pub open spec fn phonetic_texts_audio(p: Phonetic) -> Seq<Seq<char>> {
    if p.audio@.len() > 0 {
        seq![p.audio@]
    } else {
        Seq::empty()
    }
}

proof fn lemma_texts_phonetics(ps: Seq<Phonetic>, label: Label)
    requires
        label == Label::Text || label == Label::Audio || !phonetic_label(label),
    ensures
        texts_with(phonetics_doc(ps), label) == (if label == Label::Text {
            phonetic_texts(ps)
        } else if label == Label::Audio {
            audio_texts(ps)
        } else {
            Seq::empty()
        }),
    decreases ps.len(),
{
    if ps.len() > 0 {
        lemma_texts_phonetics(ps.drop_last(), label);
        lemma_texts_phonetic(ps.last(), label);
        lemma_texts_concat(phonetics_doc(ps.drop_last()), phonetic_doc(ps.last()), label);
        assert(Seq::<Seq<char>>::empty() + Seq::<Seq<char>>::empty() =~= Seq::<Seq<char>>::empty());
    }
}

/// The labels of the lines that a meaning can produce.
pub open spec fn meaning_label(l: Label) -> bool {
    l == Label::PartOfSpeech || l == Label::Definition || l == Label::Example || l
        == Label::Synonyms || l == Label::Antonyms || l == Label::Plain
}

proof fn lemma_texts_list(indent: nat, l: Label, items: Vec<String>, label: Label)
    requires
        l != label,
    ensures
        texts_with(list_line(indent, l, items), label) == Seq::<Seq<char>>::empty(),
{
    if items@.len() > 0 {
        lemma_texts_single(list_line(indent, l, items)[0], label);
        assert(list_line(indent, l, items) == seq![list_line(indent, l, items)[0]]);
    }
}

proof fn lemma_texts_definition(d: Definition, label: Label)
    requires
        label == Label::Definition || !meaning_label(label),
    ensures
        texts_with(definition_doc(d), label) == (if label == Label::Definition {
            seq![d.definition@]
        } else {
            Seq::empty()
        }),
{
    let d1 = seq![line(4, Label::Definition, d.definition@, Color::Blue)];
    let d2 = opt_line(4, Label::Example, d.example, Color::Cyan);
    let d3 = list_line(4, Label::Synonyms, d.synonyms);
    let d4 = list_line(4, Label::Antonyms, d.antonyms);
    let d5 = seq![blank()];
    lemma_texts_concat(d1, d2, label);
    lemma_texts_concat(d1 + d2, d3, label);
    lemma_texts_concat(d1 + d2 + d3, d4, label);
    lemma_texts_concat(d1 + d2 + d3 + d4, d5, label);
    lemma_texts_single(d1[0], label);
    lemma_texts_opt(4, Label::Example, d.example, Color::Cyan, label);
    lemma_texts_list(4, Label::Synonyms, d.synonyms, label);
    lemma_texts_list(4, Label::Antonyms, d.antonyms, label);
    lemma_texts_single(blank(), label);
    assert(texts_with(definition_doc(d), label) =~= texts_with(d1, label) + texts_with(d2, label)
        + texts_with(d3, label) + texts_with(d4, label) + texts_with(d5, label));
}

proof fn lemma_texts_definitions(ds: Seq<Definition>, label: Label)
    requires
        label == Label::Definition || !meaning_label(label),
    ensures
        texts_with(definitions_doc(ds), label) == (if label == Label::Definition {
            definition_texts(ds)
        } else {
            Seq::empty()
        }),
    decreases ds.len(),
{
    if ds.len() > 0 {
        lemma_texts_definitions(ds.drop_last(), label);
        lemma_texts_definition(ds.last(), label);
        lemma_texts_concat(definitions_doc(ds.drop_last()), definition_doc(ds.last()), label);
        assert(Seq::<Seq<char>>::empty() + Seq::<Seq<char>>::empty() =~= Seq::<Seq<char>>::empty());
    }
}

proof fn lemma_texts_meanings(ms: Seq<Meaning>, label: Label)
    requires
        label == Label::Definition || !meaning_label(label),
    ensures
        texts_with(meanings_doc(ms), label) == (if label == Label::Definition {
            meaning_definition_texts(ms)
        } else {
            Seq::empty()
        }),
    decreases ms.len(),
{
    if ms.len() > 0 {
        let m = ms.last();
        let head = seq![line(2, Label::PartOfSpeech, m.part_of_speech@, Color::Magenta)];
        lemma_texts_meanings(ms.drop_last(), label);
        lemma_texts_single(head[0], label);
        lemma_texts_definitions(m.definitions@, label);
        lemma_texts_concat(head, definitions_doc(m.definitions@), label);
        lemma_texts_concat(meanings_doc(ms.drop_last()), meaning_doc(m), label);
        assert(Seq::<Seq<char>>::empty() + Seq::<Seq<char>>::empty() =~= Seq::<Seq<char>>::empty());
        assert(Seq::<Seq<char>>::empty() + definition_texts(m.definitions@) =~= definition_texts(
            m.definitions@,
        ));
    }
}

proof fn lemma_texts_urls(us: Seq<String>, label: Label)
    requires
        label != Label::Plain,
    ensures
        texts_with(urls_doc(us), label) == Seq::<Seq<char>>::empty(),
    decreases us.len(),
{
    if us.len() > 0 {
        lemma_texts_urls(us.drop_last(), label);
        let x = line(2, Label::Plain, us.last()@, Color::Green);
        lemma_texts_single(x, label);
        lemma_texts_concat(urls_doc(us.drop_last()), seq![x], label);
        assert(Seq::<Seq<char>>::empty() + Seq::<Seq<char>>::empty() =~= Seq::<Seq<char>>::empty());
    }
}

proof fn lemma_texts_entry(e: WordEntry, label: Label)
    requires
        label == Label::Word || label == Label::Phonetic || label == Label::Text || label
            == Label::Audio || label == Label::Definition,
    ensures
        texts_with(entry_doc(e), label) == (if label == Label::Word {
            seq![e.word@]
        } else if label == Label::Phonetic {
            opt_text(e.phonetic)
        } else if label == Label::Text {
            phonetic_texts(e.phonetics@)
        } else if label == Label::Audio {
            audio_texts(e.phonetics@)
        } else {
            meaning_definition_texts(e.meanings@)
        }),
{
    let d1 = seq![line(0, Label::Word, e.word@, Color::BoldBlue)];
    let d2 = opt_line(0, Label::Phonetic, e.phonetic, Color::Red);
    let d3 = header_line(Label::Phonetics, e.phonetics@.len() > 0);
    let d4 = phonetics_doc(e.phonetics@);
    let d5 = header_line(Label::Meanings, true);
    let d6 = meanings_doc(e.meanings@);
    let d7 = license_line(0, e.license);
    let d8 = header_line(Label::SourceUrls, e.source_urls@.len() > 0);
    let d9 = urls_doc(e.source_urls@);
    let d10 = seq![blank()];
    lemma_texts_concat(d1, d2, label);
    lemma_texts_concat(d1 + d2, d3, label);
    lemma_texts_concat(d1 + d2 + d3, d4, label);
    lemma_texts_concat(d1 + d2 + d3 + d4, d5, label);
    lemma_texts_concat(d1 + d2 + d3 + d4 + d5, d6, label);
    lemma_texts_concat(d1 + d2 + d3 + d4 + d5 + d6, d7, label);
    lemma_texts_concat(d1 + d2 + d3 + d4 + d5 + d6 + d7, d8, label);
    lemma_texts_concat(d1 + d2 + d3 + d4 + d5 + d6 + d7 + d8, d9, label);
    lemma_texts_concat(d1 + d2 + d3 + d4 + d5 + d6 + d7 + d8 + d9, d10, label);
    lemma_texts_single(d1[0], label);
    lemma_texts_opt(0, Label::Phonetic, e.phonetic, Color::Red, label);
    if e.phonetics@.len() > 0 {
        lemma_texts_single(d3[0], label);
        assert(d3 == seq![d3[0]]);
    }
    lemma_texts_phonetics(e.phonetics@, label);
    lemma_texts_single(d5[0], label);
    assert(d5 == seq![d5[0]]);
    lemma_texts_meanings(e.meanings@, label);
    if e.license is Some {
        lemma_texts_single(d7[0], label);
        assert(d7 == seq![d7[0]]);
    }
    if e.source_urls@.len() > 0 {
        lemma_texts_single(d8[0], label);
        assert(d8 == seq![d8[0]]);
    }
    lemma_texts_urls(e.source_urls@, label);
    lemma_texts_single(blank(), label);
    let parts = texts_with(d1, label) + texts_with(d2, label) + texts_with(d3, label) + texts_with(
        d4,
        label,
    ) + texts_with(d5, label) + texts_with(d6, label) + texts_with(d7, label) + texts_with(d8, label)
        + texts_with(d9, label) + texts_with(d10, label);
    assert(entry_doc(e) == d1 + d2 + d3 + d4 + d5 + d6 + d7 + d8 + d9 + d10);
    assert(texts_with(entry_doc(e), label) == parts);
    if label == Label::Word {
        assert(parts =~= seq![e.word@]);
    } else if label == Label::Phonetic {
        assert(parts =~= opt_text(e.phonetic));
    } else if label == Label::Text {
        assert(parts =~= phonetic_texts(e.phonetics@));
    } else if label == Label::Audio {
        assert(parts =~= audio_texts(e.phonetics@));
    } else {
        assert(parts =~= meaning_definition_texts(e.meanings@));
    }
}

/// The lines of a word entry show its word once, its phonetic spelling once
/// where it has one, the spelling and the audio link of each phonetic once
/// where present, and the text of each definition once, all in the entry's
/// order; the word comes first.
pub proof fn lemma_entry_fields_in_order(e: WordEntry)
    ensures
        entry_doc(e)[0] == line(0, Label::Word, e.word@, Color::BoldBlue),
        texts_with(entry_doc(e), Label::Word) == seq![e.word@],
        texts_with(entry_doc(e), Label::Phonetic) == opt_text(e.phonetic),
        texts_with(entry_doc(e), Label::Text) == phonetic_texts(e.phonetics@),
        texts_with(entry_doc(e), Label::Audio) == audio_texts(e.phonetics@),
        texts_with(entry_doc(e), Label::Definition) == meaning_definition_texts(e.meanings@),
{
    lemma_texts_entry(e, Label::Word);
    lemma_texts_entry(e, Label::Phonetic);
    lemma_texts_entry(e, Label::Text);
    lemma_texts_entry(e, Label::Audio);
    lemma_texts_entry(e, Label::Definition);
}

/// The lines of the service's error message show its title, its message and
/// its resolution once each, and none of the fields of a word entry.
pub proof fn lemma_error_fields_once(m: ErrorMessage)
    ensures
        texts_with(error_doc(m), Label::Title) == seq![m.title@],
        texts_with(error_doc(m), Label::Message) == seq![m.message@],
        texts_with(error_doc(m), Label::Resolution) == seq![m.resolution@],
        texts_with(error_doc(m), Label::Word) == Seq::<Seq<char>>::empty(),
        texts_with(error_doc(m), Label::Phonetic) == Seq::<Seq<char>>::empty(),
        texts_with(error_doc(m), Label::Definition) == Seq::<Seq<char>>::empty(),
{
    let d = error_doc(m);
    let a = seq![d[0]];
    let b = seq![d[1]];
    let c = seq![d[2]];
    assert(d =~= a + b + c);
    let labels = seq![
        Label::Title,
        Label::Message,
        Label::Resolution,
        Label::Word,
        Label::Phonetic,
        Label::Definition,
    ];
    assert forall|i: int| 0 <= i < labels.len() implies texts_with(d, #[trigger] labels[i]) == (if d[0].label
        == labels[i] {
        seq![d[0].text]
    } else if d[1].label == labels[i] {
        seq![d[1].text]
    } else if d[2].label == labels[i] {
        seq![d[2].text]
    } else {
        Seq::empty()
    }) by {
        let l = labels[i];
        lemma_texts_concat(a, b, l);
        lemma_texts_concat(a + b, c, l);
        lemma_texts_single(d[0], l);
        lemma_texts_single(d[1], l);
        lemma_texts_single(d[2], l);
        assert(Seq::<Seq<char>>::empty() + Seq::<Seq<char>>::empty() =~= Seq::<Seq<char>>::empty());
        assert(seq![d[0].text] + Seq::<Seq<char>>::empty() =~= seq![d[0].text]);
        assert(Seq::<Seq<char>>::empty() + seq![d[1].text] =~= seq![d[1].text]);
        assert(Seq::<Seq<char>>::empty() + seq![d[2].text] =~= seq![d[2].text]);
    }
    assert(labels[0] == Label::Title);
    assert(labels[1] == Label::Message);
    assert(labels[2] == Label::Resolution);
    assert(labels[3] == Label::Word);
    assert(labels[4] == Label::Phonetic);
    assert(labels[5] == Label::Definition);
}

/// A line holding one word that is not a reserved command asks for the same
/// fetch as the command `search` with that word.
pub proof fn lemma_bare_word_is_search(arg: WordArg)
    requires
        !command_words().contains(arg.word@),
    ensures
        tokens_step(seq![arg.word@], command_words()) == StepModel::Run(
            command_action(Cli { command: Some(Commands::Search(arg)) }),
        ),
{
}

proof fn lemma_trim_start_white(s: Seq<char>)
    requires
        forall|i: int| 0 <= i < s.len() ==> is_white_space(#[trigger] s[i]),
    ensures
        trim_start(s).len() == 0,
    decreases s.len(),
{
    if s.len() > 0 {
        assert(is_white_space(s[0]));
        let t = s.drop_first();
        assert forall|i: int| 0 <= i < t.len() implies is_white_space(#[trigger] t[i]) by {
            assert(t[i] == s[i + 1]);
        }
        lemma_trim_start_white(t);
    }
}

/// A line made of whitespace alone, the empty line included, is blank: the
/// loop reads on without routing it.
pub proof fn lemma_white_line_is_blank(line: Seq<char>, commands: Seq<Seq<char>>)
    requires
        forall|i: int| 0 <= i < line.len() ==> is_white_space(#[trigger] line[i]),
    ensures
        line_step(line, commands) == StepModel::Blank,
{
    lemma_trim_start_white(line);
    assert(trimmed(line).len() == 0);
}

} // verus!
