//! The records of the dictionary service's answers.

use vstd::prelude::*;

verus! {

/// A license under which a piece of the answer is published.
#[derive(Clone, Debug)]
pub struct License {
    pub name: String,
    pub url: String,
}

/// One pronunciation; an empty `audio` means no recording.
#[derive(Clone, Debug)]
pub struct Phonetic {
    pub text: Option<String>,
    pub audio: String,
    pub source_url: Option<String>,
    pub license: Option<License>,
}

/// One sense of a word, with its optional example sentence.
#[derive(Clone, Debug)]
pub struct Definition {
    pub definition: String,
    pub synonyms: Vec<String>,
    pub antonyms: Vec<String>,
    pub example: Option<String>,
}

/// The senses of a word for one part of speech.
#[derive(Clone, Debug)]
pub struct Meaning {
    pub part_of_speech: String,
    pub definitions: Vec<Definition>,
    pub synonyms: Vec<String>,
    pub antonyms: Vec<String>,
}

/// One entry of the answer for a word; an answer may hold several.
#[derive(Clone, Debug)]
pub struct WordEntry {
    pub word: String,
    pub phonetic: Option<String>,
    pub phonetics: Vec<Phonetic>,
    pub meanings: Vec<Meaning>,
    pub license: Option<License>,
    pub source_urls: Vec<String>,
}

/// The service's answer when it has nothing for the word.
#[derive(Clone, Debug)]
pub struct ErrorMessage {
    pub title: String,
    pub message: String,
    pub resolution: String,
}

} // verus!
