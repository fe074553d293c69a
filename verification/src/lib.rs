//! Reversible word-phrase encodings for fixed-width unsigned identifiers.
//!
//! An integer is sliced into bit segments; each segment selects a word from a
//! fixed dictionary held in implicit binary-search-tree (Eytzinger) order.
//! Decoding tokenizes free text, skips filler words, looks each content word
//! up case-insensitively and reassembles the original integer.

pub mod ascii;
pub mod eytzinger;
pub mod mapper;
pub mod text;
pub mod lexicon;
pub mod schemes;
pub mod adjective_noun;
pub mod phrase;
pub mod complex_phrase;
pub mod punk;
pub mod simple_phrase;
pub mod words_adjective;
pub mod words_adverb;
pub mod words_noun;
pub mod words_preposition;
pub mod words_verb_plural;
pub mod words_verb_singular;
