//! The lexicon: one word mapper per word class, validated at construction.
//!
//! The widths are fixed: adjectives, nouns and plural verbs carry 10 bits a
//! draw, adverbs and prepositions 9, singular verbs 8 and object pronouns 2;
//! every phrase scheme composes draws out of these so that its draws cover
//! its whole integer width.

use vstd::prelude::*;
use crate::mapper::WordMapper;
use crate::words_adjective::adjective_words;
use crate::words_adverb::adverb_words;
use crate::words_noun::noun_words;
use crate::words_preposition::preposition_words;
use crate::words_verb_plural::verb_plural_words;
use crate::words_verb_singular::verb_singular_words;

verus! {

/// The word classes the schemes draw from.
pub enum WordClass {
    Adjective,
    Noun,
    VerbSingular,
    VerbPlural,
    Adverb,
    Preposition,
    ObjectPronoun,
}

/// All dictionaries, ready for encoding and decoding.
pub struct Lexicon {
    pub adjective: WordMapper,
    pub noun: WordMapper,
    pub verb_plural: WordMapper,
    pub verb_singular: WordMapper,
    pub adverb: WordMapper,
    pub preposition: WordMapper,
    pub object_pronoun: WordMapper,
}

impl Lexicon {
    /// Every mapper valid, each with its fixed draw width.
    pub open spec fn wf(&self) -> bool {
        &&& self.adjective.wf() && self.adjective.bit_count == 10
        &&& self.noun.wf() && self.noun.bit_count == 10
        &&& self.verb_plural.wf() && self.verb_plural.bit_count == 10
        &&& self.verb_singular.wf() && self.verb_singular.bit_count == 8
        &&& self.adverb.wf() && self.adverb.bit_count == 9
        &&& self.preposition.wf() && self.preposition.bit_count == 9
        &&& self.object_pronoun.wf() && self.object_pronoun.bit_count == 2
    }

    /// The mapper a word class names.
    pub open spec fn spec_dict(&self, c: WordClass) -> WordMapper {
        match c {
            WordClass::Adjective => self.adjective,
            WordClass::Noun => self.noun,
            WordClass::VerbSingular => self.verb_singular,
            WordClass::VerbPlural => self.verb_plural,
            WordClass::Adverb => self.adverb,
            WordClass::Preposition => self.preposition,
            WordClass::ObjectPronoun => self.object_pronoun,
        }
    }

    /// Dispatches a word class to its mapper.
    pub fn dict(&self, c: WordClass) -> (r: &WordMapper)
        ensures
            *r == self.spec_dict(c),
    {
        match c {
            WordClass::Adjective => &self.adjective,
            WordClass::Noun => &self.noun,
            WordClass::VerbSingular => &self.verb_singular,
            WordClass::VerbPlural => &self.verb_plural,
            WordClass::Adverb => &self.adverb,
            WordClass::Preposition => &self.preposition,
            WordClass::ObjectPronoun => &self.object_pronoun,
        }
    }

    /// Builds the lexicon from the embedded word lists, validating every
    /// dictionary; refuses them if any list is out of order, holds a
    /// non-word or a filler word, or has the wrong size.
    pub fn new() -> (r: Option<Lexicon>)
        ensures
            match r {
                Some(l) => l.wf(),
                None => true,
            },
    {
        let adjective = match checked_mapper(adjective_words(), 10) {
            None => {
                return None;
            },
            Some(m) => m,
        };
        let noun = match checked_mapper(noun_words(), 10) {
            None => {
                return None;
            },
            Some(m) => m,
        };
        let verb_plural = match checked_mapper(verb_plural_words(), 10) {
            None => {
                return None;
            },
            Some(m) => m,
        };
        let verb_singular = match checked_mapper(verb_singular_words(), 8) {
            None => {
                return None;
            },
            Some(m) => m,
        };
        let adverb = match checked_mapper(adverb_words(), 9) {
            None => {
                return None;
            },
            Some(m) => m,
        };
        let preposition = match checked_mapper(preposition_words(), 9) {
            None => {
                return None;
            },
            Some(m) => m,
        };
        let object_pronoun = match checked_mapper(object_pronoun_words(), 2) {
            None => {
                return None;
            },
            Some(m) => m,
        };
        Some(
            Lexicon {
                adjective,
                noun,
                verb_plural,
                verb_singular,
                adverb,
                preposition,
                object_pronoun,
            },
        )
    }
}

/// The object pronoun word list, in the order the search expects.
pub fn object_pronoun_words() -> Vec<String> {
    let mut v: Vec<String> = Vec::new();
    push_words(&mut v, "us me you it");
    v
}

/// Appends the words of one line of a word list.
pub fn push_words(v: &mut Vec<String>, line: &str) {
    let mut ws = crate::text::string_to_words(line);
    v.append(&mut ws);
}

/// Validates one word list and requires the expected draw width.
fn checked_mapper(words: Vec<String>, want_bits: u32) -> (r: Option<WordMapper>)
    ensures
        match r {
            Some(m) => m.wf() && m.bit_count == want_bits,
            None => true,
        },
{
    if words.len() >= 0x1000_0000 {
        return None;
    }
    match WordMapper::new(words) {
        None => None,
        Some(m) => {
            if m.bits() == want_bits {
                Some(m)
            } else {
                None
            }
        },
    }
}

} // verus!
