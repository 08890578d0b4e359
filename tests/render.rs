use dic::highlight::{marks_from_pieces, pretty_example};
use dic::model::{Definition, ErrorMessage, License, Meaning, Phonetic, WordEntry};
use dic::render::{
    join_strings, print_error_message, print_word_entries, print_word_entry, process, Color,
    Label, Line, RenderOutcome,
};

fn s(x: &str) -> String {
    x.to_string()
}

fn run_entry() -> WordEntry {
    WordEntry {
        word: s("run"),
        phonetic: Some(s("rʌn")),
        phonetics: vec![],
        meanings: vec![Meaning {
            part_of_speech: s("verb"),
            definitions: vec![Definition {
                definition: s("move fast"),
                synonyms: vec![],
                antonyms: vec![],
                example: None,
            }],
            synonyms: vec![],
            antonyms: vec![],
        }],
        license: None,
        source_urls: vec![],
    }
}

fn shown(lines: &[Line]) -> Vec<String> {
    lines.iter().map(|l| format!("{}{}{}", " ".repeat(l.indent), l.label.text(), l.text)).collect()
}

#[test]
fn scenario_run_entry_is_rendered() {
    let mut out = Vec::new();
    let outcome = process(s("[...]"), Some(vec![run_entry()]), None, &mut out);
    assert!(matches!(outcome, RenderOutcome::Rendered));
    let text = shown(&out);
    assert_eq!(
        text,
        vec![
            s("Word: run"),
            s("Phonetic: rʌn"),
            s("Meanings:"),
            s("  Part of Speech: verb"),
            s("    Definition: move fast"),
            s(""),
            s(""),
        ]
    );
    assert_eq!(out[0].color, Color::BoldBlue);
    assert_eq!(out[1].color, Color::Red);
    assert_eq!(out[3].color, Color::Magenta);
    assert_eq!(out[4].color, Color::Blue);
}

#[test]
fn scenario_error_body_shows_three_fields() {
    let em = ErrorMessage {
        title: s("No Definitions Found"),
        message: s("Sorry pal, we couldn't find definitions for the word you were looking for."),
        resolution: s("You can try the search again at later time or head to the web instead."),
    };
    let mut out = Vec::new();
    let outcome = process(s("{...}"), None, Some(em), &mut out);
    assert!(matches!(outcome, RenderOutcome::RenderedError));
    assert_eq!(
        shown(&out),
        vec![
            s("Title: No Definitions Found"),
            s("Message: Sorry pal, we couldn't find definitions for the word you were looking for."),
            s("Resolution: You can try the search again at later time or head to the web instead."),
        ]
    );
    assert!(out.iter().all(|l| l.label != Label::Word && l.label != Label::Definition));
    assert_eq!(out[0].color, Color::Red);
    assert_eq!(out[1].color, Color::Magenta);
    assert_eq!(out[2].color, Color::Green);
}

#[test]
fn scenario_unparseable_body_is_handed_back() {
    let mut out = Vec::new();
    let outcome = process(s("\"not json at all\""), None, None, &mut out);
    match outcome {
        RenderOutcome::Unparseable(body) => assert_eq!(body, "\"not json at all\""),
        _ => panic!("expected an unparseable outcome"),
    }
    assert!(out.is_empty());
}

#[test]
fn entries_come_first_when_both_readings_succeed() {
    let em = ErrorMessage { title: s("t"), message: s("m"), resolution: s("r") };
    let mut out = Vec::new();
    let outcome = process(s("[]"), Some(vec![]), Some(em), &mut out);
    assert!(matches!(outcome, RenderOutcome::Rendered));
    assert!(out.is_empty());
}

#[test]
fn full_entry_sections_in_order() {
    let entry = WordEntry {
        word: s("cat"),
        phonetic: None,
        phonetics: vec![
            Phonetic {
                text: Some(s("/kæt/")),
                audio: s("https://a/cat.mp3"),
                source_url: Some(s("https://src")),
                license: Some(License { name: s("BY-SA"), url: s("https://lic") }),
            },
            Phonetic { text: None, audio: s(""), source_url: None, license: None },
        ],
        meanings: vec![Meaning {
            part_of_speech: s("noun"),
            definitions: vec![Definition {
                definition: s("a small feline"),
                synonyms: vec![s("kitty"), s("puss")],
                antonyms: vec![s("dog")],
                example: Some(s("the cat sat")),
            }],
            synonyms: vec![],
            antonyms: vec![],
        }],
        license: Some(License { name: s("CC"), url: s("https://cc") }),
        source_urls: vec![s("https://one"), s("https://two")],
    };
    let mut out = Vec::new();
    print_word_entry(&mut out, &entry);
    assert_eq!(
        shown(&out),
        vec![
            s("Word: cat"),
            s("Phonetics:"),
            s("  Text: /kæt/"),
            s("  Audio: https://a/cat.mp3"),
            s("  Source URL: https://src"),
            s("  License: \u{1b}]8;;https://lic\u{1b}\\BY-SA\u{1b}]8;;\u{1b}\\"),
            s(""),
            s(""),
            s("Meanings:"),
            s("  Part of Speech: noun"),
            s("    Definition: a small feline"),
            s("    Example: the cat sat"),
            s("    Synonyms: kitty, puss"),
            s("    Antonyms: dog"),
            s(""),
            s("License: \u{1b}]8;;https://cc\u{1b}\\CC\u{1b}]8;;\u{1b}\\"),
            s("Source URLs:"),
            s("  https://one"),
            s("  https://two"),
            s(""),
        ]
    );
    assert_eq!(out[11].marks, vec![(4, 7)]);
    assert!(out.iter().enumerate().all(|(i, l)| i == 11 || l.marks.is_empty()));
}

#[test]
fn entries_render_in_list_order() {
    let mut second = run_entry();
    second.word = s("sprint");
    second.phonetic = None;
    let mut out = Vec::new();
    print_word_entries(&mut out, &vec![run_entry(), second]);
    let words: Vec<&str> =
        out.iter().filter(|l| l.label == Label::Word).map(|l| l.text.as_str()).collect();
    assert_eq!(words, vec!["run", "sprint"]);
    let defs = out.iter().filter(|l| l.label == Label::Definition).count();
    assert_eq!(defs, 2);
}

#[test]
fn print_error_message_appends_after_existing_lines() {
    let mut out = Vec::new();
    print_word_entry(&mut out, &run_entry());
    let before = out.len();
    let em = ErrorMessage { title: s("t"), message: s("m"), resolution: s("r") };
    print_error_message(&mut out, &em);
    assert_eq!(out.len(), before + 3);
    assert_eq!(out[before].text, "t");
}

#[test]
fn whole_word_only_cat_not_category() {
    assert_eq!(pretty_example("a category of cats and a cat", "cat"), vec![(25, 28)]);
}

#[test]
fn example_marks_every_whole_occurrence() {
    assert_eq!(pretty_example("cat, cat.cat", "cat"), vec![(0, 3), (5, 8), (9, 12)]);
    assert_eq!(pretty_example("concat cat's", "cat"), vec![(7, 10)]);
}

#[test]
fn example_marks_count_characters_not_bytes() {
    assert_eq!(pretty_example("é cat", "cat"), vec![(2, 5)]);
    assert_eq!(pretty_example("écat cat", "cat"), vec![(5, 8)]);
}

#[test]
fn example_with_empty_word_or_no_match() {
    assert_eq!(pretty_example("anything", ""), vec![]);
    assert_eq!(pretty_example("no match here", "cat"), vec![]);
    assert_eq!(pretty_example("", "cat"), vec![]);
}

#[test]
fn example_word_with_special_characters_is_literal() {
    assert_eq!(pretty_example("a.b axb", "a.b"), vec![(0, 3)]);
}

#[test]
fn marks_between_pieces() {
    assert_eq!(marks_from_pieces(&vec![s("a "), s(" b")], "cat"), vec![(2, 5)]);
    assert_eq!(marks_from_pieces(&vec![s(""), s(" "), s("")], "ab"), vec![(0, 2), (3, 5)]);
    assert_eq!(marks_from_pieces(&vec![s("whole")], "ab"), vec![]);
}

#[test]
fn join_with_separator() {
    assert_eq!(join_strings(&vec![s("fast"), s("quick")], ", "), "fast, quick");
    assert_eq!(join_strings(&vec![s("one")], ", "), "one");
    assert_eq!(join_strings(&vec![], ", "), "");
}

#[test]
fn label_captions() {
    assert_eq!(Label::PartOfSpeech.text(), "Part of Speech: ");
    assert_eq!(Label::SourceUrls.text(), "Source URLs:");
    assert_eq!(Label::Plain.text(), "");
}

#[test]
fn single_whole_word_mark_in_example() {
    assert_eq!(pretty_example("a cat in a category", "cat"), vec![(2, 5)]);
}

#[test]
fn each_entry_marks_its_own_word() {
    let mut first = run_entry();
    first.meanings[0].definitions[0].example = Some(s("run and walk"));
    let mut second = run_entry();
    second.word = s("walk");
    second.meanings[0].definitions[0].example = Some(s("run and walk"));
    let mut out = Vec::new();
    let outcome = process(s("[...]"), Some(vec![first, second]), None, &mut out);
    assert!(matches!(outcome, RenderOutcome::Rendered));
    let marks: Vec<Vec<(usize, usize)>> =
        out.iter().filter(|l| l.label == Label::Example).map(|l| l.marks.clone()).collect();
    assert_eq!(marks, vec![vec![(0, 3)], vec![(8, 12)]]);
    assert!(out.iter().filter(|l| l.label != Label::Example).all(|l| l.marks.is_empty()));
}
