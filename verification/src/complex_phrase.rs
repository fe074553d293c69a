//! The 128-bit scheme: a long sentence of sixteen content words.
//!
//! Four adjectives, four nouns, four plural verbs, two adverbs and two
//! prepositions, each class a no-repeat draw of 8 bits a word: exactly 128
//! bits. Decoding feeds the words back in the exact reverse order of the
//! draws.

use vstd::prelude::*;
use vstd::arithmetic::power::pow;
use vstd::string::StringSliceAdditionalSpecFns;

use crate::ascii::{ascii_seq, eq_ic, is_alpha, word_chars_ok};
use crate::eytzinger::words_bytes;
use crate::lexicon::Lexicon;
use crate::mapper::{
    decode_norep_spec, dict_find, filler_and, filler_that, filler_the, norep_exp, norep_index,
    string_bytes,
};
use crate::schemes::{
    parse_plan, parse_tokens, skip_set_match, take_count, Error, ErrorView, Hyphenated, SkipSet,
    Step,
};
use crate::simple_phrase::{dash, sp, word_the};
use crate::text::{
    ascii_to_string, lemma_tokenize_separated, push_str_bytes, push_word_bytes, seps_then_words,
    string_to_words, tokenize, word_bytes_ok,
};

verus! {

/// A 128-bit identifier as sixteen words.
pub struct ComplexPhrase {
    pub adjective1: String,
    pub noun1: String,
    pub verb1: String,
    pub adverb1: String,
    pub preposition1: String,
    pub adjective2: String,
    pub noun2: String,
    pub preposition2: String,
    pub noun3: String,
    pub verb2: String,
    pub adverb2: String,
    pub adjective3: String,
    pub adjective4: String,
    pub noun4: String,
    pub verb3: String,
    pub verb4: String,
}

impl ComplexPhrase {
    /// Every field is a word.
    pub open spec fn wf(&self) -> bool {
        word_chars_ok(self.adjective1@) && word_chars_ok(self.noun1@) && word_chars_ok(self.verb1@) && word_chars_ok(self.adverb1@) && word_chars_ok(self.preposition1@) && word_chars_ok(self.adjective2@) && word_chars_ok(self.noun2@) && word_chars_ok(self.preposition2@) && word_chars_ok(self.noun3@) && word_chars_ok(self.verb2@) && word_chars_ok(self.adverb2@) && word_chars_ok(self.adjective3@) && word_chars_ok(self.adjective4@) && word_chars_ok(self.noun4@) && word_chars_ok(self.verb3@) && word_chars_ok(self.verb4@)
    }

    /// The phrase encodes `n` over the lexicon.
    pub open spec fn encodes(&self, lex: Lexicon, n: u128) -> bool {
        &&& ascii_seq(self.adjective1@) == lex.adjective@[norep_index(256, 0, n as int)]
        &&& ascii_seq(self.adjective2@) == lex.adjective@[norep_index(256, 1, n as int)]
        &&& ascii_seq(self.adjective3@) == lex.adjective@[norep_index(256, 2, n as int)]
        &&& ascii_seq(self.adjective4@) == lex.adjective@[norep_index(256, 3, n as int)]
        &&& ascii_seq(self.noun1@) == lex.noun@[norep_index(256, 0, (n as int) / 0x1_0000_0000)]
        &&& ascii_seq(self.noun2@) == lex.noun@[norep_index(256, 1, (n as int) / 0x1_0000_0000)]
        &&& ascii_seq(self.noun3@) == lex.noun@[norep_index(256, 2, (n as int) / 0x1_0000_0000)]
        &&& ascii_seq(self.noun4@) == lex.noun@[norep_index(256, 3, (n as int) / 0x1_0000_0000)]
        &&& ascii_seq(self.verb1@) == lex.verb_plural@[norep_index(256, 0, (n as int) / 0x1_0000_0000_0000_0000)]
        &&& ascii_seq(self.verb2@) == lex.verb_plural@[norep_index(256, 1, (n as int) / 0x1_0000_0000_0000_0000)]
        &&& ascii_seq(self.verb3@) == lex.verb_plural@[norep_index(256, 2, (n as int) / 0x1_0000_0000_0000_0000)]
        &&& ascii_seq(self.verb4@) == lex.verb_plural@[norep_index(256, 3, (n as int) / 0x1_0000_0000_0000_0000)]
        &&& ascii_seq(self.adverb1@) == lex.adverb@[norep_index(256, 0, (n as int) / 0x1000000000000000000000000)]
        &&& ascii_seq(self.adverb2@) == lex.adverb@[norep_index(256, 1, (n as int) / 0x1000000000000000000000000)]
        &&& ascii_seq(self.preposition1@) == lex.preposition@[norep_index(256, 0, (n as int) / 0x10000000000000000000000000000)]
        &&& ascii_seq(self.preposition2@) == lex.preposition@[norep_index(256, 1, (n as int) / 0x10000000000000000000000000000)]
    }

    /// Encodes a 128-bit identifier as a complex phrase.
    pub fn encode(lex: &Lexicon, bits: u128) -> (r: ComplexPhrase)
        requires
            lex.wf(),
        ensures
            r.wf(),
            r.encodes(*lex, bits),
    {
        encode(lex, bits)
    }

    /// Wraps the phrase for hyphenated rendering.
    pub fn hyphenated(self) -> (r: Hyphenated<ComplexPhrase>)
        ensures
            r.0 == self,
    {
        Hyphenated(self)
    }

    /// The natural rendering.
    #[verifier::rlimit(100)]
    pub fn text(&self) -> (r: String)
        requires
            self.wf(),
        ensures
            ascii_seq(r@) == natural_bytes(
                ascii_seq(self.adjective1@),
                ascii_seq(self.noun1@),
                ascii_seq(self.verb1@),
                ascii_seq(self.adverb1@),
                ascii_seq(self.preposition1@),
                ascii_seq(self.adjective2@),
                ascii_seq(self.noun2@),
                ascii_seq(self.preposition2@),
                ascii_seq(self.noun3@),
                ascii_seq(self.verb2@),
                ascii_seq(self.adverb2@),
                ascii_seq(self.adjective3@),
                ascii_seq(self.adjective4@),
                ascii_seq(self.noun4@),
                ascii_seq(self.verb3@),
                ascii_seq(self.verb4@),
            ),
    {
        let mut buf: Vec<u8> = Vec::new();
        proof {
            reveal_strlit("The ");
            reveal_strlit(" ");
            reveal_strlit(" the ");
            reveal_strlit(" and ");
            reveal_strlit(" that the ");
        }
        push_str_bytes(&mut buf, "The ");
        push_word_bytes(&mut buf, &self.adjective1);
        push_str_bytes(&mut buf, " ");
        push_word_bytes(&mut buf, &self.noun1);
        push_str_bytes(&mut buf, " ");
        push_word_bytes(&mut buf, &self.verb1);
        push_str_bytes(&mut buf, " ");
        push_word_bytes(&mut buf, &self.adverb1);
        push_str_bytes(&mut buf, " ");
        push_word_bytes(&mut buf, &self.preposition1);
        push_str_bytes(&mut buf, " the ");
        push_word_bytes(&mut buf, &self.adjective2);
        push_str_bytes(&mut buf, " ");
        push_word_bytes(&mut buf, &self.noun2);
        push_str_bytes(&mut buf, " ");
        push_word_bytes(&mut buf, &self.preposition2);
        push_str_bytes(&mut buf, " the ");
        push_word_bytes(&mut buf, &self.noun3);
        push_str_bytes(&mut buf, " and ");
        push_word_bytes(&mut buf, &self.verb2);
        push_str_bytes(&mut buf, " ");
        push_word_bytes(&mut buf, &self.adverb2);
        push_str_bytes(&mut buf, " that the ");
        push_word_bytes(&mut buf, &self.adjective3);
        push_str_bytes(&mut buf, " ");
        push_word_bytes(&mut buf, &self.adjective4);
        push_str_bytes(&mut buf, " ");
        push_word_bytes(&mut buf, &self.noun4);
        push_str_bytes(&mut buf, " ");
        push_word_bytes(&mut buf, &self.verb3);
        push_str_bytes(&mut buf, " and ");
        push_word_bytes(&mut buf, &self.verb4);
        let ghost bufg = buf@;
        let r = ascii_to_string(buf);
        proof {
            assert(ascii_seq("The "@) =~= word_the() + sp());
            assert(ascii_seq(" "@) =~= sp());
            assert(ascii_seq(" the "@) =~= sp() + filler_the() + sp());
            assert(ascii_seq(" and "@) =~= sp() + filler_and() + sp());
            assert(ascii_seq(" that the "@) =~= sp() + filler_that() + sp() + filler_the() + sp());
            assert(ascii_seq(r@) =~= bufg);
            assert(bufg =~= natural_bytes(
                ascii_seq(self.adjective1@),
                ascii_seq(self.noun1@),
                ascii_seq(self.verb1@),
                ascii_seq(self.adverb1@),
                ascii_seq(self.preposition1@),
                ascii_seq(self.adjective2@),
                ascii_seq(self.noun2@),
                ascii_seq(self.preposition2@),
                ascii_seq(self.noun3@),
                ascii_seq(self.verb2@),
                ascii_seq(self.adverb2@),
                ascii_seq(self.adjective3@),
                ascii_seq(self.adjective4@),
                ascii_seq(self.noun4@),
                ascii_seq(self.verb3@),
                ascii_seq(self.verb4@),
            ));
        }
        r
    }
}

impl Hyphenated<ComplexPhrase> {
    /// The compact rendering: the sixteen words joined by hyphens.
    #[verifier::rlimit(100)]
    pub fn text(&self) -> (r: String)
        requires
            self.0.wf(),
        ensures
            ascii_seq(r@) == hyphen_bytes(
                ascii_seq(self.0.adjective1@),
                ascii_seq(self.0.noun1@),
                ascii_seq(self.0.verb1@),
                ascii_seq(self.0.adverb1@),
                ascii_seq(self.0.preposition1@),
                ascii_seq(self.0.adjective2@),
                ascii_seq(self.0.noun2@),
                ascii_seq(self.0.preposition2@),
                ascii_seq(self.0.noun3@),
                ascii_seq(self.0.verb2@),
                ascii_seq(self.0.adverb2@),
                ascii_seq(self.0.adjective3@),
                ascii_seq(self.0.adjective4@),
                ascii_seq(self.0.noun4@),
                ascii_seq(self.0.verb3@),
                ascii_seq(self.0.verb4@),
            ),
    {
        let mut buf: Vec<u8> = Vec::new();
        proof {
            reveal_strlit("-");
        }
        push_word_bytes(&mut buf, &self.0.adjective1);
        push_str_bytes(&mut buf, "-");
        push_word_bytes(&mut buf, &self.0.noun1);
        push_str_bytes(&mut buf, "-");
        push_word_bytes(&mut buf, &self.0.verb1);
        push_str_bytes(&mut buf, "-");
        push_word_bytes(&mut buf, &self.0.adverb1);
        push_str_bytes(&mut buf, "-");
        push_word_bytes(&mut buf, &self.0.preposition1);
        push_str_bytes(&mut buf, "-");
        push_word_bytes(&mut buf, &self.0.adjective2);
        push_str_bytes(&mut buf, "-");
        push_word_bytes(&mut buf, &self.0.noun2);
        push_str_bytes(&mut buf, "-");
        push_word_bytes(&mut buf, &self.0.preposition2);
        push_str_bytes(&mut buf, "-");
        push_word_bytes(&mut buf, &self.0.noun3);
        push_str_bytes(&mut buf, "-");
        push_word_bytes(&mut buf, &self.0.verb2);
        push_str_bytes(&mut buf, "-");
        push_word_bytes(&mut buf, &self.0.adverb2);
        push_str_bytes(&mut buf, "-");
        push_word_bytes(&mut buf, &self.0.adjective3);
        push_str_bytes(&mut buf, "-");
        push_word_bytes(&mut buf, &self.0.adjective4);
        push_str_bytes(&mut buf, "-");
        push_word_bytes(&mut buf, &self.0.noun4);
        push_str_bytes(&mut buf, "-");
        push_word_bytes(&mut buf, &self.0.verb3);
        push_str_bytes(&mut buf, "-");
        push_word_bytes(&mut buf, &self.0.verb4);
        let ghost bufg = buf@;
        let r = ascii_to_string(buf);
        proof {
            assert(ascii_seq("-"@) =~= dash());
            assert(ascii_seq(r@) =~= bufg);
            assert(bufg =~= hyphen_bytes(
                ascii_seq(self.0.adjective1@),
                ascii_seq(self.0.noun1@),
                ascii_seq(self.0.verb1@),
                ascii_seq(self.0.adverb1@),
                ascii_seq(self.0.preposition1@),
                ascii_seq(self.0.adjective2@),
                ascii_seq(self.0.noun2@),
                ascii_seq(self.0.preposition2@),
                ascii_seq(self.0.noun3@),
                ascii_seq(self.0.verb2@),
                ascii_seq(self.0.adverb2@),
                ascii_seq(self.0.adjective3@),
                ascii_seq(self.0.adjective4@),
                ascii_seq(self.0.noun4@),
                ascii_seq(self.0.verb3@),
                ascii_seq(self.0.verb4@),
            ));
        }
        r
    }
}

/// The bytes of the natural rendering.
pub open spec fn natural_bytes(a1: Seq<u8>, n1: Seq<u8>, v1: Seq<u8>, d1: Seq<u8>, p1: Seq<u8>, a2: Seq<u8>, n2: Seq<u8>, p2: Seq<u8>, n3: Seq<u8>, v2: Seq<u8>, d2: Seq<u8>, a3: Seq<u8>, a4: Seq<u8>, n4: Seq<u8>, v3: Seq<u8>, v4: Seq<u8>) -> Seq<u8> {
    word_the() + sp() + a1 + sp() + n1 + sp() + v1 + sp() + d1 + sp() + p1 + sp() + filler_the() + sp() + a2 + sp() + n2 + sp() + p2 + sp() + filler_the() + sp() + n3 + sp() + filler_and() + sp() + v2 + sp() + d2 + sp() + filler_that() + sp() + filler_the() + sp() + a3 + sp() + a4 + sp() + n4 + sp() + v3 + sp() + filler_and() + sp() + v4
}

/// The bytes of the hyphenated rendering.
pub open spec fn hyphen_bytes(a1: Seq<u8>, n1: Seq<u8>, v1: Seq<u8>, d1: Seq<u8>, p1: Seq<u8>, a2: Seq<u8>, n2: Seq<u8>, p2: Seq<u8>, n3: Seq<u8>, v2: Seq<u8>, d2: Seq<u8>, a3: Seq<u8>, a4: Seq<u8>, n4: Seq<u8>, v3: Seq<u8>, v4: Seq<u8>) -> Seq<u8> {
    a1 + dash() + n1 + dash() + v1 + dash() + d1 + dash() + p1 + dash() + a2 + dash() + n2 + dash() + p2 + dash() + n3 + dash() + v2 + dash() + d2 + dash() + a3 + dash() + a4 + dash() + n4 + dash() + v3 + dash() + v4
}

/// The parsing template: sixteen content words with the sentence's filler
/// words skipped at their fixed positions.
pub open spec fn plan_spec() -> Seq<Step> {
    seq![Step::Skip(SkipSet::Articles), Step::Take, Step::Take, Step::Take, Step::Take, Step::Take, Step::Skip(SkipSet::Articles), Step::Take, Step::Take, Step::Take, Step::Skip(SkipSet::Articles), Step::Take, Step::Skip(SkipSet::And), Step::Take, Step::Take, Step::Skip(SkipSet::That), Step::Skip(SkipSet::Articles), Step::Take, Step::Take, Step::Take, Step::Take, Step::Skip(SkipSet::And), Step::Take]
}

/// The dictionary lookups and bit reassembly over parsed content words.
pub open spec fn decode_words_value(lex: Lexicon, ws: Seq<Seq<u8>>) -> Result<u128, ErrorView> {
    match decode_norep_spec(lex.preposition@, seq![ws[7], ws[4]], 0, 256) {
        Err(e) => Err(ErrorView::Unrecognized { word: seq![ws[7], ws[4]][e] }),
        Ok(acc1) => match decode_norep_spec(lex.adverb@, seq![ws[10], ws[3]], acc1, 256) {
            Err(e) => Err(ErrorView::Unrecognized { word: seq![ws[10], ws[3]][e] }),
            Ok(acc2) => match decode_norep_spec(
                lex.verb_plural@,
                seq![ws[15], ws[14], ws[9], ws[2]],
                acc2,
                256,
            ) {
                Err(e) => Err(
                    ErrorView::Unrecognized { word: seq![ws[15], ws[14], ws[9], ws[2]][e] },
                ),
                Ok(acc3) => match decode_norep_spec(
                    lex.noun@,
                    seq![ws[13], ws[8], ws[6], ws[1]],
                    acc3,
                    256,
                ) {
                    Err(e) => Err(
                        ErrorView::Unrecognized { word: seq![ws[13], ws[8], ws[6], ws[1]][e] },
                    ),
                    Ok(acc4) => match decode_norep_spec(
                        lex.adjective@,
                        seq![ws[12], ws[11], ws[5], ws[0]],
                        acc4,
                        256,
                    ) {
                        Err(e) => Err(
                            ErrorView::Unrecognized {
                                word: seq![ws[12], ws[11], ws[5], ws[0]][e],
                            },
                        ),
                        Ok(v) => Ok(v as u128),
                    },
                },
            },
        },
    }
}

/// What decoding returns on any input text, over the lexicon.
pub open spec fn decode_spec(lex: Lexicon, bytes: Seq<u8>) -> Result<u128, ErrorView> {
    let toks = tokenize(bytes);
    match parse_plan(toks, plan_spec(), 0, seq![], 16) {
        Err(e) => Err(e),
        Ok(ws) => decode_words_value(lex, ws),
    }
}

/// Encodes a 128-bit identifier as a complex phrase.
pub fn encode(lex: &Lexicon, bits: u128) -> (r: ComplexPhrase)
    requires
        lex.wf(),
    ensures
        r.wf(),
        r.encodes(*lex, bits),
{
    proof {
        lex.adjective.lemma_wf_len();
        lex.noun.lemma_wf_len();
        lex.verb_plural.lemma_wf_len();
        lex.adverb.lemma_wf_len();
        lex.preposition.lemma_wf_len();
        vstd::arithmetic::power2::lemma2_to64();
        lemma_norep_small();
        lemma_pow_256();
    }
    let (adjs, rest) = lex.adjective.encode_words_norepeat(4, bits);
    proof {
        assert(rest == (bits as int) / 0x1_0000_0000);
    }
    let (nouns, rest) = lex.noun.encode_words_norepeat(4, rest);
    proof {
        vstd::arithmetic::div_mod::lemma_div_denominator(
            bits as int,
            0x1_0000_0000,
            0x1_0000_0000,
        );
        assert(rest == (bits as int) / 0x1_0000_0000_0000_0000);
    }
    let (verbs, rest) = lex.verb_plural.encode_words_norepeat(4, rest);
    proof {
        vstd::arithmetic::div_mod::lemma_div_denominator(
            bits as int,
            0x1_0000_0000_0000_0000,
            0x1_0000_0000,
        );
        assert(rest == (bits as int) / 0x1000000000000000000000000);
    }
    let (adverbs, rest) = lex.adverb.encode_words_norepeat(2, rest);
    proof {
        vstd::arithmetic::div_mod::lemma_div_denominator(bits as int, 0x1000000000000000000000000, 0x1_0000);
        assert(rest == (bits as int) / 0x10000000000000000000000000000);
    }
    let (preps, rest) = lex.preposition.encode_words_norepeat(2, rest);
    proof {
        assert((bits as int) / 0x10000000000000000000000000000 < 0x1_0000) by {
            vstd::arithmetic::div_mod::lemma_multiply_divide_lt(bits as int, 0x10000000000000000000000000000, 0x1_0000);
        }
        vstd::arithmetic::div_mod::lemma_basic_div((bits as int) / 0x10000000000000000000000000000, 0x1_0000);
        assert(rest == 0);
    }
    ComplexPhrase {
        adjective1: adjs[0].clone(),
        noun1: nouns[0].clone(),
        verb1: verbs[0].clone(),
        adverb1: adverbs[0].clone(),
        preposition1: preps[0].clone(),
        adjective2: adjs[1].clone(),
        noun2: nouns[1].clone(),
        preposition2: preps[1].clone(),
        noun3: nouns[2].clone(),
        verb2: verbs[1].clone(),
        adverb2: adverbs[1].clone(),
        adjective3: adjs[2].clone(),
        adjective4: adjs[3].clone(),
        noun4: nouns[3].clone(),
        verb3: verbs[2].clone(),
        verb4: verbs[3].clone(),
    }
}

/// The no-repeat exponents of the draws.
proof fn lemma_norep_small()
    ensures
        norep_exp(1) == 0,
        norep_exp(2) == 1,
        norep_exp(4) == 2,
{
    assert(norep_exp(1) == 0);
    assert(norep_exp(2) == 1 + norep_exp(1));
    assert(norep_exp(4) == 1 + norep_exp(2));
}

/// Powers of the 256-word block.
proof fn lemma_pow_256()
    ensures
        pow(256, 0) == 1,
        pow(256, 1) == 256,
        pow(256, 2) == 0x1_0000,
        pow(256, 3) == 0x100_0000,
        pow(256, 4) == 0x1_0000_0000,
{
    vstd::arithmetic::power::lemma_pow0(256);
    vstd::arithmetic::power::lemma_pow1(256);
    vstd::arithmetic::power::lemma_pow_adds(256, 1, 1);
    vstd::arithmetic::power::lemma_pow_adds(256, 2, 1);
    vstd::arithmetic::power::lemma_pow_adds(256, 3, 1);
}

/// Decodes free text against the sentence template: the exact reverse of
/// `encode`.
pub fn decode(lex: &Lexicon, s: &str) -> (r: Result<u128, Error>)
    requires
        lex.wf(),
    ensures
        match r {
            Ok(n) => decode_spec(*lex, s.spec_bytes()) == Ok::<u128, ErrorView>(n),
            Err(e) => decode_spec(*lex, s.spec_bytes()) == Err::<u128, ErrorView>(e@) && e.wf(),
        },
{
    let toks = string_to_words(s);
    let mut plan: Vec<Step> = Vec::new();
    plan.push(Step::Skip(SkipSet::Articles));
    plan.push(Step::Take);
    plan.push(Step::Take);
    plan.push(Step::Take);
    plan.push(Step::Take);
    plan.push(Step::Take);
    plan.push(Step::Skip(SkipSet::Articles));
    plan.push(Step::Take);
    plan.push(Step::Take);
    plan.push(Step::Take);
    plan.push(Step::Skip(SkipSet::Articles));
    plan.push(Step::Take);
    plan.push(Step::Skip(SkipSet::And));
    plan.push(Step::Take);
    plan.push(Step::Take);
    plan.push(Step::Skip(SkipSet::That));
    plan.push(Step::Skip(SkipSet::Articles));
    plan.push(Step::Take);
    plan.push(Step::Take);
    plan.push(Step::Take);
    plan.push(Step::Take);
    plan.push(Step::Skip(SkipSet::And));
    plan.push(Step::Take);
    proof {
        assert(plan@ =~= plan_spec());
    }
    let ws = match parse_tokens(&toks, &plan, 16) {
        Err(e) => {
            return Err(e);
        },
        Ok(ws) => ws,
    };
    proof {
        lex.adjective.lemma_wf_len();
        lex.noun.lemma_wf_len();
        lex.verb_plural.lemma_wf_len();
        lex.adverb.lemma_wf_len();
        lex.preposition.lemma_wf_len();
        vstd::arithmetic::power2::lemma2_to64();
        lemma_norep_small();
        lemma_pow_256();
        vstd::arithmetic::power2::lemma_pow2_pos(112);
        crate::schemes::lemma_parse_plan_len(tokenize(s.spec_bytes()), plan_spec(), 0, seq![], 16);
        lemma_plan_take_count();
        assert(ws@.len() == 16);
        assert forall|i: int| 0 <= i < ws@.len() implies string_bytes(#[trigger] ws@[i]@)
            == words_bytes(ws@)[i] by {
            let w = ws@[i]@;
            assert forall|kk: int| 0 <= kk < w.len() implies '\0' <= #[trigger] w[kk]
                <= '\u{7f}' by {
                assert(crate::ascii::char_is_alpha(w[kk]));
            }
            vstd::utf8::is_ascii_chars_encode_utf8(w);
            assert(string_bytes(w) =~= ascii_seq(w));
        }
    }
    let ghost wsb = words_bytes(ws@);
    let mut preps_r: Vec<String> = Vec::new();
    preps_r.push(ws[7].clone());
    preps_r.push(ws[4].clone());
    proof {
        assert(crate::mapper::strs_bytes(preps_r@) =~= seq![wsb[7], wsb[4]]);
    }
    let acc1 = match lex.preposition.decode_words_norepeat(&preps_r, 0) {
        Err(i) => {
            proof {
                crate::mapper::lemma_decode_norep_err(
                    lex.preposition@,
                    seq![wsb[7], wsb[4]],
                    0,
                    256,
                );
            }
            let which: usize = if i == 0 {
                7
            } else {
                4
            };
            return Err(unrecognized(&ws, which));
        },
        Ok(acc) => acc,
    };
    proof {
        crate::mapper::lemma_decode_norep_bound(lex.preposition@, seq![wsb[7], wsb[4]], 0, 256);
        assert(decode_norep_spec(lex.preposition@, seq![wsb[7], wsb[4]], 0, 256) == Ok::<
            int,
            int,
        >(acc1 as int));
        assert((acc1 as int) < 0x1_0000);
        vstd::arithmetic::power2::lemma_pow2_strictly_increases(16, 112);
    }
    let mut advs_r: Vec<String> = Vec::new();
    advs_r.push(ws[10].clone());
    advs_r.push(ws[3].clone());
    proof {
        assert(crate::mapper::strs_bytes(advs_r@) =~= seq![wsb[10], wsb[3]]);
    }
    let acc2 = match lex.adverb.decode_words_norepeat(&advs_r, acc1) {
        Err(i) => {
            proof {
                crate::mapper::lemma_decode_norep_err(
                    lex.adverb@,
                    seq![wsb[10], wsb[3]],
                    acc1 as int,
                    256,
                );
            }
            let which: usize = if i == 0 {
                10
            } else {
                3
            };
            return Err(unrecognized(&ws, which));
        },
        Ok(acc) => acc,
    };
    proof {
        crate::mapper::lemma_decode_norep_bound(
            lex.adverb@,
            seq![wsb[10], wsb[3]],
            acc1 as int,
            256,
        );
        assert(decode_norep_spec(lex.adverb@, seq![wsb[10], wsb[3]], acc1 as int, 256) == Ok::<
            int,
            int,
        >(acc2 as int));
        assert((acc2 as int) < 0x1_0000_0000);
        vstd::arithmetic::power2::lemma_pow2_strictly_increases(32, 96);
    }
    let mut verbs_r: Vec<String> = Vec::new();
    verbs_r.push(ws[15].clone());
    verbs_r.push(ws[14].clone());
    verbs_r.push(ws[9].clone());
    verbs_r.push(ws[2].clone());
    proof {
        assert(crate::mapper::strs_bytes(verbs_r@) =~= seq![wsb[15], wsb[14], wsb[9], wsb[2]]);
    }
    let acc3 = match lex.verb_plural.decode_words_norepeat(&verbs_r, acc2) {
        Err(i) => {
            proof {
                crate::mapper::lemma_decode_norep_err(
                    lex.verb_plural@,
                    seq![wsb[15], wsb[14], wsb[9], wsb[2]],
                    acc2 as int,
                    256,
                );
            }
            let which: usize = if i == 0 {
                15
            } else if i == 1 {
                14
            } else if i == 2 {
                9
            } else {
                2
            };
            return Err(unrecognized(&ws, which));
        },
        Ok(acc) => acc,
    };
    proof {
        crate::mapper::lemma_decode_norep_bound(
            lex.verb_plural@,
            seq![wsb[15], wsb[14], wsb[9], wsb[2]],
            acc2 as int,
            256,
        );
        assert(decode_norep_spec(
            lex.verb_plural@,
            seq![wsb[15], wsb[14], wsb[9], wsb[2]],
            acc2 as int,
            256,
        ) == Ok::<int, int>(acc3 as int));
        assert((acc3 as int) < 0x1_0000_0000_0000_0000);
        vstd::arithmetic::power2::lemma_pow2_strictly_increases(64, 96);
    }
    let mut nouns_r: Vec<String> = Vec::new();
    nouns_r.push(ws[13].clone());
    nouns_r.push(ws[8].clone());
    nouns_r.push(ws[6].clone());
    nouns_r.push(ws[1].clone());
    proof {
        assert(crate::mapper::strs_bytes(nouns_r@) =~= seq![wsb[13], wsb[8], wsb[6], wsb[1]]);
    }
    let acc4 = match lex.noun.decode_words_norepeat(&nouns_r, acc3) {
        Err(i) => {
            proof {
                crate::mapper::lemma_decode_norep_err(
                    lex.noun@,
                    seq![wsb[13], wsb[8], wsb[6], wsb[1]],
                    acc3 as int,
                    256,
                );
            }
            let which: usize = if i == 0 {
                13
            } else if i == 1 {
                8
            } else if i == 2 {
                6
            } else {
                1
            };
            return Err(unrecognized(&ws, which));
        },
        Ok(acc) => acc,
    };
    proof {
        crate::mapper::lemma_decode_norep_bound(
            lex.noun@,
            seq![wsb[13], wsb[8], wsb[6], wsb[1]],
            acc3 as int,
            256,
        );
        assert(decode_norep_spec(
            lex.noun@,
            seq![wsb[13], wsb[8], wsb[6], wsb[1]],
            acc3 as int,
            256,
        ) == Ok::<int, int>(acc4 as int));
        vstd::arithmetic::power2::lemma_pow2_adds(64, 32);
        assert((acc4 as int) < vstd::arithmetic::power2::pow2(96));
    }
    let mut adjs_r: Vec<String> = Vec::new();
    adjs_r.push(ws[12].clone());
    adjs_r.push(ws[11].clone());
    adjs_r.push(ws[5].clone());
    adjs_r.push(ws[0].clone());
    proof {
        assert(crate::mapper::strs_bytes(adjs_r@) =~= seq![wsb[12], wsb[11], wsb[5], wsb[0]]);
    }
    let acc5 = match lex.adjective.decode_words_norepeat(&adjs_r, acc4) {
        Err(i) => {
            proof {
                crate::mapper::lemma_decode_norep_err(
                    lex.adjective@,
                    seq![wsb[12], wsb[11], wsb[5], wsb[0]],
                    acc4 as int,
                    256,
                );
            }
            let which: usize = if i == 0 {
                12
            } else if i == 1 {
                11
            } else if i == 2 {
                5
            } else {
                0
            };
            return Err(unrecognized(&ws, which));
        },
        Ok(acc) => acc,
    };
    Ok(acc5)
}

/// The template reads sixteen content words.
#[verifier::rlimit(100)]
proof fn lemma_plan_take_count()
    ensures
        take_count(plan_spec()) == 16,
{
    let p0 = plan_spec();
    let q1 = seq![Step::Take, Step::Take, Step::Take, Step::Take, Step::Take, Step::Skip(SkipSet::Articles), Step::Take, Step::Take, Step::Take, Step::Skip(SkipSet::Articles), Step::Take, Step::Skip(SkipSet::And), Step::Take, Step::Take, Step::Skip(SkipSet::That), Step::Skip(SkipSet::Articles), Step::Take, Step::Take, Step::Take, Step::Take, Step::Skip(SkipSet::And), Step::Take];
    let q2 = seq![Step::Take, Step::Take, Step::Take, Step::Take, Step::Skip(SkipSet::Articles), Step::Take, Step::Take, Step::Take, Step::Skip(SkipSet::Articles), Step::Take, Step::Skip(SkipSet::And), Step::Take, Step::Take, Step::Skip(SkipSet::That), Step::Skip(SkipSet::Articles), Step::Take, Step::Take, Step::Take, Step::Take, Step::Skip(SkipSet::And), Step::Take];
    let q3 = seq![Step::Take, Step::Take, Step::Take, Step::Skip(SkipSet::Articles), Step::Take, Step::Take, Step::Take, Step::Skip(SkipSet::Articles), Step::Take, Step::Skip(SkipSet::And), Step::Take, Step::Take, Step::Skip(SkipSet::That), Step::Skip(SkipSet::Articles), Step::Take, Step::Take, Step::Take, Step::Take, Step::Skip(SkipSet::And), Step::Take];
    let q4 = seq![Step::Take, Step::Take, Step::Skip(SkipSet::Articles), Step::Take, Step::Take, Step::Take, Step::Skip(SkipSet::Articles), Step::Take, Step::Skip(SkipSet::And), Step::Take, Step::Take, Step::Skip(SkipSet::That), Step::Skip(SkipSet::Articles), Step::Take, Step::Take, Step::Take, Step::Take, Step::Skip(SkipSet::And), Step::Take];
    let q5 = seq![Step::Take, Step::Skip(SkipSet::Articles), Step::Take, Step::Take, Step::Take, Step::Skip(SkipSet::Articles), Step::Take, Step::Skip(SkipSet::And), Step::Take, Step::Take, Step::Skip(SkipSet::That), Step::Skip(SkipSet::Articles), Step::Take, Step::Take, Step::Take, Step::Take, Step::Skip(SkipSet::And), Step::Take];
    let q6 = seq![Step::Skip(SkipSet::Articles), Step::Take, Step::Take, Step::Take, Step::Skip(SkipSet::Articles), Step::Take, Step::Skip(SkipSet::And), Step::Take, Step::Take, Step::Skip(SkipSet::That), Step::Skip(SkipSet::Articles), Step::Take, Step::Take, Step::Take, Step::Take, Step::Skip(SkipSet::And), Step::Take];
    let q7 = seq![Step::Take, Step::Take, Step::Take, Step::Skip(SkipSet::Articles), Step::Take, Step::Skip(SkipSet::And), Step::Take, Step::Take, Step::Skip(SkipSet::That), Step::Skip(SkipSet::Articles), Step::Take, Step::Take, Step::Take, Step::Take, Step::Skip(SkipSet::And), Step::Take];
    let q8 = seq![Step::Take, Step::Take, Step::Skip(SkipSet::Articles), Step::Take, Step::Skip(SkipSet::And), Step::Take, Step::Take, Step::Skip(SkipSet::That), Step::Skip(SkipSet::Articles), Step::Take, Step::Take, Step::Take, Step::Take, Step::Skip(SkipSet::And), Step::Take];
    let q9 = seq![Step::Take, Step::Skip(SkipSet::Articles), Step::Take, Step::Skip(SkipSet::And), Step::Take, Step::Take, Step::Skip(SkipSet::That), Step::Skip(SkipSet::Articles), Step::Take, Step::Take, Step::Take, Step::Take, Step::Skip(SkipSet::And), Step::Take];
    let q10 = seq![Step::Skip(SkipSet::Articles), Step::Take, Step::Skip(SkipSet::And), Step::Take, Step::Take, Step::Skip(SkipSet::That), Step::Skip(SkipSet::Articles), Step::Take, Step::Take, Step::Take, Step::Take, Step::Skip(SkipSet::And), Step::Take];
    let q11 = seq![Step::Take, Step::Skip(SkipSet::And), Step::Take, Step::Take, Step::Skip(SkipSet::That), Step::Skip(SkipSet::Articles), Step::Take, Step::Take, Step::Take, Step::Take, Step::Skip(SkipSet::And), Step::Take];
    let q12 = seq![Step::Skip(SkipSet::And), Step::Take, Step::Take, Step::Skip(SkipSet::That), Step::Skip(SkipSet::Articles), Step::Take, Step::Take, Step::Take, Step::Take, Step::Skip(SkipSet::And), Step::Take];
    let q13 = seq![Step::Take, Step::Take, Step::Skip(SkipSet::That), Step::Skip(SkipSet::Articles), Step::Take, Step::Take, Step::Take, Step::Take, Step::Skip(SkipSet::And), Step::Take];
    let q14 = seq![Step::Take, Step::Skip(SkipSet::That), Step::Skip(SkipSet::Articles), Step::Take, Step::Take, Step::Take, Step::Take, Step::Skip(SkipSet::And), Step::Take];
    let q15 = seq![Step::Skip(SkipSet::That), Step::Skip(SkipSet::Articles), Step::Take, Step::Take, Step::Take, Step::Take, Step::Skip(SkipSet::And), Step::Take];
    let q16 = seq![Step::Skip(SkipSet::Articles), Step::Take, Step::Take, Step::Take, Step::Take, Step::Skip(SkipSet::And), Step::Take];
    let q17 = seq![Step::Take, Step::Take, Step::Take, Step::Take, Step::Skip(SkipSet::And), Step::Take];
    let q18 = seq![Step::Take, Step::Take, Step::Take, Step::Skip(SkipSet::And), Step::Take];
    let q19 = seq![Step::Take, Step::Take, Step::Skip(SkipSet::And), Step::Take];
    let q20 = seq![Step::Take, Step::Skip(SkipSet::And), Step::Take];
    let q21 = seq![Step::Skip(SkipSet::And), Step::Take];
    let q22 = seq![Step::Take];
    let q23 = Seq::<Step>::empty();
    assert(p0.drop_first() =~= q1);
    assert(q1.drop_first() =~= q2);
    assert(q2.drop_first() =~= q3);
    assert(q3.drop_first() =~= q4);
    assert(q4.drop_first() =~= q5);
    assert(q5.drop_first() =~= q6);
    assert(q6.drop_first() =~= q7);
    assert(q7.drop_first() =~= q8);
    assert(q8.drop_first() =~= q9);
    assert(q9.drop_first() =~= q10);
    assert(q10.drop_first() =~= q11);
    assert(q11.drop_first() =~= q12);
    assert(q12.drop_first() =~= q13);
    assert(q13.drop_first() =~= q14);
    assert(q14.drop_first() =~= q15);
    assert(q15.drop_first() =~= q16);
    assert(q16.drop_first() =~= q17);
    assert(q17.drop_first() =~= q18);
    assert(q18.drop_first() =~= q19);
    assert(q19.drop_first() =~= q20);
    assert(q20.drop_first() =~= q21);
    assert(q21.drop_first() =~= q22);
    assert(q22.drop_first() =~= q23);
    assert(take_count(q23) == 0);
    assert(take_count(q22) == 1);
    assert(take_count(q21) == 1);
    assert(take_count(q20) == 2);
    assert(take_count(q19) == 3);
    assert(take_count(q18) == 4);
    assert(take_count(q17) == 5);
    assert(take_count(q16) == 5);
    assert(take_count(q15) == 5);
    assert(take_count(q14) == 6);
    assert(take_count(q13) == 7);
    assert(take_count(q12) == 7);
    assert(take_count(q11) == 8);
    assert(take_count(q10) == 8);
    assert(take_count(q9) == 9);
    assert(take_count(q8) == 10);
    assert(take_count(q7) == 11);
    assert(take_count(q6) == 11);
    assert(take_count(q5) == 12);
    assert(take_count(q4) == 13);
    assert(take_count(q3) == 14);
    assert(take_count(q2) == 15);
    assert(take_count(q1) == 16);
    assert(take_count(p0) == 16);
}

/// Reports a word missing from its dictionary.
fn unrecognized(ws: &Vec<String>, i: usize) -> (r: Error)
    requires
        i < ws@.len(),
        word_chars_ok(ws@[i as int]@),
    ensures
        r@ == (ErrorView::Unrecognized { word: words_bytes(ws@)[i as int] }),
        r.wf(),
{
    let w = ws[i].clone();
    proof {
        let s = w@;
        assert forall|k: int| 0 <= k < s.len() implies '\0' <= #[trigger] s[k] <= '\u{7f}' by {
            assert(crate::ascii::char_is_alpha(s[k]));
        }
        vstd::utf8::is_ascii_chars_encode_utf8(w@);
        assert(string_bytes(w@) =~= ascii_seq(w@));
    }
    Error::Unrecognized { word: w }
}

/// The filler words of the sentence are words.
proof fn lemma_fillers_words()
    ensures
        word_bytes_ok(word_the()),
        word_bytes_ok(filler_the()),
        word_bytes_ok(filler_and()),
        word_bytes_ok(filler_that()),
{
    assert(is_alpha(word_the()[0]) && is_alpha(word_the()[1]) && is_alpha(word_the()[2]));
    assert(is_alpha(filler_the()[0]) && is_alpha(filler_the()[1]) && is_alpha(filler_the()[2]));
    assert(is_alpha(filler_and()[0]) && is_alpha(filler_and()[1]) && is_alpha(filler_and()[2]));
    assert(is_alpha(filler_that()[0]) && is_alpha(filler_that()[1]) && is_alpha(filler_that()[2])
        && is_alpha(filler_that()[3]));
}





/// A segment of the rendering, scanned word by word.
#[verifier::rlimit(100)]
proof fn lemma_hyp_part0(a1: Seq<u8>, n1: Seq<u8>, v1: Seq<u8>, d1: Seq<u8>, p1: Seq<u8>, a2: Seq<u8>)
    ensures
        seps_then_words(seq![Seq::<u8>::empty(), dash(), dash(), dash(), dash(), dash()], seq![a1, n1, v1, d1, p1, a2]) == a1 + dash() + n1 + dash() + v1 + dash() + d1 + dash() + p1 + dash() + a2,
{
    assert(seps_then_words(seq![dash()], seq![a2]) =~= dash() + a2) by {
        assert(seq![dash()].drop_first() =~= Seq::<Seq<u8>>::empty());
        assert(seq![a2].drop_first() =~= Seq::<Seq<u8>>::empty());
        assert(seps_then_words(Seq::<Seq<u8>>::empty(), Seq::<Seq<u8>>::empty()) == Seq::<u8>::empty());
    }
    assert(seps_then_words(seq![dash(), dash()], seq![p1, a2]) =~= dash() + p1 + dash() + a2) by {
        assert(seq![dash(), dash()].drop_first() =~= seq![dash()]);
        assert(seq![p1, a2].drop_first() =~= seq![a2]);
    }
    assert(seps_then_words(seq![dash(), dash(), dash()], seq![d1, p1, a2]) =~= dash() + d1 + dash() + p1 + dash() + a2) by {
        assert(seq![dash(), dash(), dash()].drop_first() =~= seq![dash(), dash()]);
        assert(seq![d1, p1, a2].drop_first() =~= seq![p1, a2]);
    }
    assert(seps_then_words(seq![dash(), dash(), dash(), dash()], seq![v1, d1, p1, a2]) =~= dash() + v1 + dash() + d1 + dash() + p1 + dash() + a2) by {
        assert(seq![dash(), dash(), dash(), dash()].drop_first() =~= seq![dash(), dash(), dash()]);
        assert(seq![v1, d1, p1, a2].drop_first() =~= seq![d1, p1, a2]);
    }
    assert(seps_then_words(seq![dash(), dash(), dash(), dash(), dash()], seq![n1, v1, d1, p1, a2]) =~= dash() + n1 + dash() + v1 + dash() + d1 + dash() + p1 + dash() + a2) by {
        assert(seq![dash(), dash(), dash(), dash(), dash()].drop_first() =~= seq![dash(), dash(), dash(), dash()]);
        assert(seq![n1, v1, d1, p1, a2].drop_first() =~= seq![v1, d1, p1, a2]);
    }
    assert(seps_then_words(seq![Seq::<u8>::empty(), dash(), dash(), dash(), dash(), dash()], seq![a1, n1, v1, d1, p1, a2]) =~= a1 + dash() + n1 + dash() + v1 + dash() + d1 + dash() + p1 + dash() + a2) by {
        assert(seq![Seq::<u8>::empty(), dash(), dash(), dash(), dash(), dash()].drop_first() =~= seq![dash(), dash(), dash(), dash(), dash()]);
        assert(seq![a1, n1, v1, d1, p1, a2].drop_first() =~= seq![n1, v1, d1, p1, a2]);
    }
}

/// A segment of the rendering, scanned word by word.
#[verifier::rlimit(100)]
proof fn lemma_hyp_part1(n2: Seq<u8>, p2: Seq<u8>, n3: Seq<u8>, v2: Seq<u8>, d2: Seq<u8>)
    ensures
        seps_then_words(seq![dash(), dash(), dash(), dash(), dash()], seq![n2, p2, n3, v2, d2]) == dash() + n2 + dash() + p2 + dash() + n3 + dash() + v2 + dash() + d2,
{
    assert(seps_then_words(seq![dash()], seq![d2]) =~= dash() + d2) by {
        assert(seq![dash()].drop_first() =~= Seq::<Seq<u8>>::empty());
        assert(seq![d2].drop_first() =~= Seq::<Seq<u8>>::empty());
        assert(seps_then_words(Seq::<Seq<u8>>::empty(), Seq::<Seq<u8>>::empty()) == Seq::<u8>::empty());
    }
    assert(seps_then_words(seq![dash(), dash()], seq![v2, d2]) =~= dash() + v2 + dash() + d2) by {
        assert(seq![dash(), dash()].drop_first() =~= seq![dash()]);
        assert(seq![v2, d2].drop_first() =~= seq![d2]);
    }
    assert(seps_then_words(seq![dash(), dash(), dash()], seq![n3, v2, d2]) =~= dash() + n3 + dash() + v2 + dash() + d2) by {
        assert(seq![dash(), dash(), dash()].drop_first() =~= seq![dash(), dash()]);
        assert(seq![n3, v2, d2].drop_first() =~= seq![v2, d2]);
    }
    assert(seps_then_words(seq![dash(), dash(), dash(), dash()], seq![p2, n3, v2, d2]) =~= dash() + p2 + dash() + n3 + dash() + v2 + dash() + d2) by {
        assert(seq![dash(), dash(), dash(), dash()].drop_first() =~= seq![dash(), dash(), dash()]);
        assert(seq![p2, n3, v2, d2].drop_first() =~= seq![n3, v2, d2]);
    }
    assert(seps_then_words(seq![dash(), dash(), dash(), dash(), dash()], seq![n2, p2, n3, v2, d2]) =~= dash() + n2 + dash() + p2 + dash() + n3 + dash() + v2 + dash() + d2) by {
        assert(seq![dash(), dash(), dash(), dash(), dash()].drop_first() =~= seq![dash(), dash(), dash(), dash()]);
        assert(seq![n2, p2, n3, v2, d2].drop_first() =~= seq![p2, n3, v2, d2]);
    }
}

/// A segment of the rendering, scanned word by word.
#[verifier::rlimit(100)]
proof fn lemma_hyp_part2(a3: Seq<u8>, a4: Seq<u8>, n4: Seq<u8>, v3: Seq<u8>, v4: Seq<u8>)
    ensures
        seps_then_words(seq![dash(), dash(), dash(), dash(), dash()], seq![a3, a4, n4, v3, v4]) == dash() + a3 + dash() + a4 + dash() + n4 + dash() + v3 + dash() + v4,
{
    assert(seps_then_words(seq![dash()], seq![v4]) =~= dash() + v4) by {
        assert(seq![dash()].drop_first() =~= Seq::<Seq<u8>>::empty());
        assert(seq![v4].drop_first() =~= Seq::<Seq<u8>>::empty());
        assert(seps_then_words(Seq::<Seq<u8>>::empty(), Seq::<Seq<u8>>::empty()) == Seq::<u8>::empty());
    }
    assert(seps_then_words(seq![dash(), dash()], seq![v3, v4]) =~= dash() + v3 + dash() + v4) by {
        assert(seq![dash(), dash()].drop_first() =~= seq![dash()]);
        assert(seq![v3, v4].drop_first() =~= seq![v4]);
    }
    assert(seps_then_words(seq![dash(), dash(), dash()], seq![n4, v3, v4]) =~= dash() + n4 + dash() + v3 + dash() + v4) by {
        assert(seq![dash(), dash(), dash()].drop_first() =~= seq![dash(), dash()]);
        assert(seq![n4, v3, v4].drop_first() =~= seq![v3, v4]);
    }
    assert(seps_then_words(seq![dash(), dash(), dash(), dash()], seq![a4, n4, v3, v4]) =~= dash() + a4 + dash() + n4 + dash() + v3 + dash() + v4) by {
        assert(seq![dash(), dash(), dash(), dash()].drop_first() =~= seq![dash(), dash(), dash()]);
        assert(seq![a4, n4, v3, v4].drop_first() =~= seq![n4, v3, v4]);
    }
    assert(seps_then_words(seq![dash(), dash(), dash(), dash(), dash()], seq![a3, a4, n4, v3, v4]) =~= dash() + a3 + dash() + a4 + dash() + n4 + dash() + v3 + dash() + v4) by {
        assert(seq![dash(), dash(), dash(), dash(), dash()].drop_first() =~= seq![dash(), dash(), dash(), dash()]);
        assert(seq![a3, a4, n4, v3, v4].drop_first() =~= seq![a4, n4, v3, v4]);
    }
}

/// The words of the hyphenated rendering: the sixteen content words.
#[verifier::rlimit(100)]
proof fn lemma_hyphen_tokens(a1: Seq<u8>, n1: Seq<u8>, v1: Seq<u8>, d1: Seq<u8>, p1: Seq<u8>, a2: Seq<u8>, n2: Seq<u8>, p2: Seq<u8>, n3: Seq<u8>, v2: Seq<u8>, d2: Seq<u8>, a3: Seq<u8>, a4: Seq<u8>, n4: Seq<u8>, v3: Seq<u8>, v4: Seq<u8>)
    requires
        word_bytes_ok(a1),
        word_bytes_ok(n1),
        word_bytes_ok(v1),
        word_bytes_ok(d1),
        word_bytes_ok(p1),
        word_bytes_ok(a2),
        word_bytes_ok(n2),
        word_bytes_ok(p2),
        word_bytes_ok(n3),
        word_bytes_ok(v2),
        word_bytes_ok(d2),
        word_bytes_ok(a3),
        word_bytes_ok(a4),
        word_bytes_ok(n4),
        word_bytes_ok(v3),
        word_bytes_ok(v4),
    ensures
        tokenize(hyphen_bytes(a1, n1, v1, d1, p1, a2, n2, p2, n3, v2, d2, a3, a4, n4, v3, v4)) == seq![a1, n1, v1, d1, p1, a2, n2, p2, n3, v2, d2, a3, a4, n4, v3, v4],
{
    let toks = seq![a1, n1, v1, d1, p1, a2, n2, p2, n3, v2, d2, a3, a4, n4, v3, v4];
    let seps = seq![Seq::<u8>::empty(), dash(), dash(), dash(), dash(), dash(), dash(), dash(), dash(), dash(), dash(), dash(), dash(), dash(), dash(), dash()];
    lemma_hyp_part0(a1, n1, v1, d1, p1, a2);
    lemma_hyp_part1(n2, p2, n3, v2, d2);
    lemma_hyp_part2(a3, a4, n4, v3, v4);
    crate::text::lemma_stw_split(seq![Seq::<u8>::empty(), dash(), dash(), dash(), dash(), dash(), dash(), dash(), dash(), dash(), dash(), dash(), dash(), dash(), dash(), dash()], seq![a1, n1, v1, d1, p1, a2, n2, p2, n3, v2, d2, a3, a4, n4, v3, v4], 6);
    assert(seq![Seq::<u8>::empty(), dash(), dash(), dash(), dash(), dash(), dash(), dash(), dash(), dash(), dash(), dash(), dash(), dash(), dash(), dash()].take(6) =~= seq![Seq::<u8>::empty(), dash(), dash(), dash(), dash(), dash()]);
    assert(seq![a1, n1, v1, d1, p1, a2, n2, p2, n3, v2, d2, a3, a4, n4, v3, v4].take(6) =~= seq![a1, n1, v1, d1, p1, a2]);
    assert(seq![Seq::<u8>::empty(), dash(), dash(), dash(), dash(), dash(), dash(), dash(), dash(), dash(), dash(), dash(), dash(), dash(), dash(), dash()].skip(6) =~= seq![dash(), dash(), dash(), dash(), dash(), dash(), dash(), dash(), dash(), dash()]);
    assert(seq![a1, n1, v1, d1, p1, a2, n2, p2, n3, v2, d2, a3, a4, n4, v3, v4].skip(6) =~= seq![n2, p2, n3, v2, d2, a3, a4, n4, v3, v4]);
    crate::text::lemma_stw_split(seq![dash(), dash(), dash(), dash(), dash(), dash(), dash(), dash(), dash(), dash()], seq![n2, p2, n3, v2, d2, a3, a4, n4, v3, v4], 5);
    assert(seq![dash(), dash(), dash(), dash(), dash(), dash(), dash(), dash(), dash(), dash()].take(5) =~= seq![dash(), dash(), dash(), dash(), dash()]);
    assert(seq![n2, p2, n3, v2, d2, a3, a4, n4, v3, v4].take(5) =~= seq![n2, p2, n3, v2, d2]);
    assert(seq![dash(), dash(), dash(), dash(), dash(), dash(), dash(), dash(), dash(), dash()].skip(5) =~= seq![dash(), dash(), dash(), dash(), dash()]);
    assert(seq![n2, p2, n3, v2, d2, a3, a4, n4, v3, v4].skip(5) =~= seq![a3, a4, n4, v3, v4]);
    assert((a1 + dash() + n1 + dash() + v1 + dash() + d1 + dash() + p1 + dash() + a2) + ((dash()
        + n2 + dash() + p2 + dash() + n3 + dash() + v2 + dash() + d2) + (dash() + a3 + dash() + a4
        + dash() + n4 + dash() + v3 + dash() + v4)) =~= hyphen_bytes(a1, n1, v1, d1, p1, a2, n2,
        p2, n3, v2, d2, a3, a4, n4, v3, v4));
    assert(seps_then_words(seps, toks) =~= hyphen_bytes(a1, n1, v1, d1, p1, a2, n2, p2, n3, v2,
        d2, a3, a4, n4, v3, v4));
    lemma_tokenize_separated(seps, toks);
}

/// Running the template over the hyphenated rendering's words: nothing is
/// skipped.
#[verifier::rlimit(100)]
proof fn lemma_parse_hyphen(toks: Seq<Seq<u8>>)
    requires
        toks.len() == 16,
        !skip_set_match(SkipSet::Articles, toks[0]),
        !skip_set_match(SkipSet::Articles, toks[5]),
        !skip_set_match(SkipSet::Articles, toks[8]),
        !skip_set_match(SkipSet::And, toks[9]),
        !skip_set_match(SkipSet::That, toks[11]),
        !skip_set_match(SkipSet::Articles, toks[11]),
        !skip_set_match(SkipSet::And, toks[15]),
    ensures
        parse_plan(toks, plan_spec(), 0, seq![], 16) == Ok::<Seq<Seq<u8>>, ErrorView>(
            seq![toks[0], toks[1], toks[2], toks[3], toks[4], toks[5], toks[6], toks[7], toks[8], toks[9], toks[10], toks[11], toks[12], toks[13], toks[14], toks[15]],
        ),
{
    assert(plan_spec() =~= seq![Step::Skip(SkipSet::Articles), Step::Take, Step::Take, Step::Take, Step::Take, Step::Take, Step::Skip(SkipSet::Articles), Step::Take, Step::Take, Step::Take, Step::Skip(SkipSet::Articles), Step::Take, Step::Skip(SkipSet::And), Step::Take, Step::Take, Step::Skip(SkipSet::That), Step::Skip(SkipSet::Articles), Step::Take, Step::Take, Step::Take, Step::Take, Step::Skip(SkipSet::And), Step::Take]);
    let pl0 = plan_spec();
    let pl1 = seq![Step::Take, Step::Take, Step::Take, Step::Take, Step::Take, Step::Skip(SkipSet::Articles), Step::Take, Step::Take, Step::Take, Step::Skip(SkipSet::Articles), Step::Take, Step::Skip(SkipSet::And), Step::Take, Step::Take, Step::Skip(SkipSet::That), Step::Skip(SkipSet::Articles), Step::Take, Step::Take, Step::Take, Step::Take, Step::Skip(SkipSet::And), Step::Take];
    let pl2 = seq![Step::Take, Step::Take, Step::Take, Step::Take, Step::Skip(SkipSet::Articles), Step::Take, Step::Take, Step::Take, Step::Skip(SkipSet::Articles), Step::Take, Step::Skip(SkipSet::And), Step::Take, Step::Take, Step::Skip(SkipSet::That), Step::Skip(SkipSet::Articles), Step::Take, Step::Take, Step::Take, Step::Take, Step::Skip(SkipSet::And), Step::Take];
    let pl3 = seq![Step::Take, Step::Take, Step::Take, Step::Skip(SkipSet::Articles), Step::Take, Step::Take, Step::Take, Step::Skip(SkipSet::Articles), Step::Take, Step::Skip(SkipSet::And), Step::Take, Step::Take, Step::Skip(SkipSet::That), Step::Skip(SkipSet::Articles), Step::Take, Step::Take, Step::Take, Step::Take, Step::Skip(SkipSet::And), Step::Take];
    let pl4 = seq![Step::Take, Step::Take, Step::Skip(SkipSet::Articles), Step::Take, Step::Take, Step::Take, Step::Skip(SkipSet::Articles), Step::Take, Step::Skip(SkipSet::And), Step::Take, Step::Take, Step::Skip(SkipSet::That), Step::Skip(SkipSet::Articles), Step::Take, Step::Take, Step::Take, Step::Take, Step::Skip(SkipSet::And), Step::Take];
    let pl5 = seq![Step::Take, Step::Skip(SkipSet::Articles), Step::Take, Step::Take, Step::Take, Step::Skip(SkipSet::Articles), Step::Take, Step::Skip(SkipSet::And), Step::Take, Step::Take, Step::Skip(SkipSet::That), Step::Skip(SkipSet::Articles), Step::Take, Step::Take, Step::Take, Step::Take, Step::Skip(SkipSet::And), Step::Take];
    let pl6 = seq![Step::Skip(SkipSet::Articles), Step::Take, Step::Take, Step::Take, Step::Skip(SkipSet::Articles), Step::Take, Step::Skip(SkipSet::And), Step::Take, Step::Take, Step::Skip(SkipSet::That), Step::Skip(SkipSet::Articles), Step::Take, Step::Take, Step::Take, Step::Take, Step::Skip(SkipSet::And), Step::Take];
    let pl7 = seq![Step::Take, Step::Take, Step::Take, Step::Skip(SkipSet::Articles), Step::Take, Step::Skip(SkipSet::And), Step::Take, Step::Take, Step::Skip(SkipSet::That), Step::Skip(SkipSet::Articles), Step::Take, Step::Take, Step::Take, Step::Take, Step::Skip(SkipSet::And), Step::Take];
    let pl8 = seq![Step::Take, Step::Take, Step::Skip(SkipSet::Articles), Step::Take, Step::Skip(SkipSet::And), Step::Take, Step::Take, Step::Skip(SkipSet::That), Step::Skip(SkipSet::Articles), Step::Take, Step::Take, Step::Take, Step::Take, Step::Skip(SkipSet::And), Step::Take];
    let pl9 = seq![Step::Take, Step::Skip(SkipSet::Articles), Step::Take, Step::Skip(SkipSet::And), Step::Take, Step::Take, Step::Skip(SkipSet::That), Step::Skip(SkipSet::Articles), Step::Take, Step::Take, Step::Take, Step::Take, Step::Skip(SkipSet::And), Step::Take];
    let pl10 = seq![Step::Skip(SkipSet::Articles), Step::Take, Step::Skip(SkipSet::And), Step::Take, Step::Take, Step::Skip(SkipSet::That), Step::Skip(SkipSet::Articles), Step::Take, Step::Take, Step::Take, Step::Take, Step::Skip(SkipSet::And), Step::Take];
    let pl11 = seq![Step::Take, Step::Skip(SkipSet::And), Step::Take, Step::Take, Step::Skip(SkipSet::That), Step::Skip(SkipSet::Articles), Step::Take, Step::Take, Step::Take, Step::Take, Step::Skip(SkipSet::And), Step::Take];
    let pl12 = seq![Step::Skip(SkipSet::And), Step::Take, Step::Take, Step::Skip(SkipSet::That), Step::Skip(SkipSet::Articles), Step::Take, Step::Take, Step::Take, Step::Take, Step::Skip(SkipSet::And), Step::Take];
    let pl13 = seq![Step::Take, Step::Take, Step::Skip(SkipSet::That), Step::Skip(SkipSet::Articles), Step::Take, Step::Take, Step::Take, Step::Take, Step::Skip(SkipSet::And), Step::Take];
    let pl14 = seq![Step::Take, Step::Skip(SkipSet::That), Step::Skip(SkipSet::Articles), Step::Take, Step::Take, Step::Take, Step::Take, Step::Skip(SkipSet::And), Step::Take];
    let pl15 = seq![Step::Skip(SkipSet::That), Step::Skip(SkipSet::Articles), Step::Take, Step::Take, Step::Take, Step::Take, Step::Skip(SkipSet::And), Step::Take];
    let pl16 = seq![Step::Skip(SkipSet::Articles), Step::Take, Step::Take, Step::Take, Step::Take, Step::Skip(SkipSet::And), Step::Take];
    let pl17 = seq![Step::Take, Step::Take, Step::Take, Step::Take, Step::Skip(SkipSet::And), Step::Take];
    let pl18 = seq![Step::Take, Step::Take, Step::Take, Step::Skip(SkipSet::And), Step::Take];
    let pl19 = seq![Step::Take, Step::Take, Step::Skip(SkipSet::And), Step::Take];
    let pl20 = seq![Step::Take, Step::Skip(SkipSet::And), Step::Take];
    let pl21 = seq![Step::Skip(SkipSet::And), Step::Take];
    let pl22 = seq![Step::Take];
    let pl23 = Seq::<Step>::empty();
    assert(pl0.drop_first() =~= pl1);
    assert(pl1.drop_first() =~= pl2);
    assert(pl2.drop_first() =~= pl3);
    assert(pl3.drop_first() =~= pl4);
    assert(pl4.drop_first() =~= pl5);
    assert(pl5.drop_first() =~= pl6);
    assert(pl6.drop_first() =~= pl7);
    assert(pl7.drop_first() =~= pl8);
    assert(pl8.drop_first() =~= pl9);
    assert(pl9.drop_first() =~= pl10);
    assert(pl10.drop_first() =~= pl11);
    assert(pl11.drop_first() =~= pl12);
    assert(pl12.drop_first() =~= pl13);
    assert(pl13.drop_first() =~= pl14);
    assert(pl14.drop_first() =~= pl15);
    assert(pl15.drop_first() =~= pl16);
    assert(pl16.drop_first() =~= pl17);
    assert(pl17.drop_first() =~= pl18);
    assert(pl18.drop_first() =~= pl19);
    assert(pl19.drop_first() =~= pl20);
    assert(pl20.drop_first() =~= pl21);
    assert(pl21.drop_first() =~= pl22);
    assert(pl22.drop_first() =~= pl23);
    let t0 = Seq::<Seq<u8>>::empty();
    assert(parse_plan(toks, pl0, 0, t0, 16) == parse_plan(toks, pl1, 0, t0, 16));
    let t1 = seq![toks[0]];
    assert(t0.push(toks[0]) =~= t1);
    assert(parse_plan(toks, pl1, 0, t0, 16) == parse_plan(toks, pl2, 1, t1, 16));
    let t2 = seq![toks[0], toks[1]];
    assert(t1.push(toks[1]) =~= t2);
    assert(parse_plan(toks, pl2, 1, t1, 16) == parse_plan(toks, pl3, 2, t2, 16));
    let t3 = seq![toks[0], toks[1], toks[2]];
    assert(t2.push(toks[2]) =~= t3);
    assert(parse_plan(toks, pl3, 2, t2, 16) == parse_plan(toks, pl4, 3, t3, 16));
    let t4 = seq![toks[0], toks[1], toks[2], toks[3]];
    assert(t3.push(toks[3]) =~= t4);
    assert(parse_plan(toks, pl4, 3, t3, 16) == parse_plan(toks, pl5, 4, t4, 16));
    let t5 = seq![toks[0], toks[1], toks[2], toks[3], toks[4]];
    assert(t4.push(toks[4]) =~= t5);
    assert(parse_plan(toks, pl5, 4, t4, 16) == parse_plan(toks, pl6, 5, t5, 16));
    assert(parse_plan(toks, pl6, 5, t5, 16) == parse_plan(toks, pl7, 5, t5, 16));
    let t6 = seq![toks[0], toks[1], toks[2], toks[3], toks[4], toks[5]];
    assert(t5.push(toks[5]) =~= t6);
    assert(parse_plan(toks, pl7, 5, t5, 16) == parse_plan(toks, pl8, 6, t6, 16));
    let t7 = seq![toks[0], toks[1], toks[2], toks[3], toks[4], toks[5], toks[6]];
    assert(t6.push(toks[6]) =~= t7);
    assert(parse_plan(toks, pl8, 6, t6, 16) == parse_plan(toks, pl9, 7, t7, 16));
    let t8 = seq![toks[0], toks[1], toks[2], toks[3], toks[4], toks[5], toks[6], toks[7]];
    assert(t7.push(toks[7]) =~= t8);
    assert(parse_plan(toks, pl9, 7, t7, 16) == parse_plan(toks, pl10, 8, t8, 16));
    assert(parse_plan(toks, pl10, 8, t8, 16) == parse_plan(toks, pl11, 8, t8, 16));
    let t9 = seq![toks[0], toks[1], toks[2], toks[3], toks[4], toks[5], toks[6], toks[7], toks[8]];
    assert(t8.push(toks[8]) =~= t9);
    assert(parse_plan(toks, pl11, 8, t8, 16) == parse_plan(toks, pl12, 9, t9, 16));
    assert(parse_plan(toks, pl12, 9, t9, 16) == parse_plan(toks, pl13, 9, t9, 16));
    let t10 = seq![toks[0], toks[1], toks[2], toks[3], toks[4], toks[5], toks[6], toks[7], toks[8], toks[9]];
    assert(t9.push(toks[9]) =~= t10);
    assert(parse_plan(toks, pl13, 9, t9, 16) == parse_plan(toks, pl14, 10, t10, 16));
    let t11 = seq![toks[0], toks[1], toks[2], toks[3], toks[4], toks[5], toks[6], toks[7], toks[8], toks[9], toks[10]];
    assert(t10.push(toks[10]) =~= t11);
    assert(parse_plan(toks, pl14, 10, t10, 16) == parse_plan(toks, pl15, 11, t11, 16));
    assert(parse_plan(toks, pl15, 11, t11, 16) == parse_plan(toks, pl16, 11, t11, 16));
    assert(parse_plan(toks, pl16, 11, t11, 16) == parse_plan(toks, pl17, 11, t11, 16));
    let t12 = seq![toks[0], toks[1], toks[2], toks[3], toks[4], toks[5], toks[6], toks[7], toks[8], toks[9], toks[10], toks[11]];
    assert(t11.push(toks[11]) =~= t12);
    assert(parse_plan(toks, pl17, 11, t11, 16) == parse_plan(toks, pl18, 12, t12, 16));
    let t13 = seq![toks[0], toks[1], toks[2], toks[3], toks[4], toks[5], toks[6], toks[7], toks[8], toks[9], toks[10], toks[11], toks[12]];
    assert(t12.push(toks[12]) =~= t13);
    assert(parse_plan(toks, pl18, 12, t12, 16) == parse_plan(toks, pl19, 13, t13, 16));
    let t14 = seq![toks[0], toks[1], toks[2], toks[3], toks[4], toks[5], toks[6], toks[7], toks[8], toks[9], toks[10], toks[11], toks[12], toks[13]];
    assert(t13.push(toks[13]) =~= t14);
    assert(parse_plan(toks, pl19, 13, t13, 16) == parse_plan(toks, pl20, 14, t14, 16));
    let t15 = seq![toks[0], toks[1], toks[2], toks[3], toks[4], toks[5], toks[6], toks[7], toks[8], toks[9], toks[10], toks[11], toks[12], toks[13], toks[14]];
    assert(t14.push(toks[14]) =~= t15);
    assert(parse_plan(toks, pl20, 14, t14, 16) == parse_plan(toks, pl21, 15, t15, 16));
    assert(parse_plan(toks, pl21, 15, t15, 16) == parse_plan(toks, pl22, 15, t15, 16));
    let t16 = seq![toks[0], toks[1], toks[2], toks[3], toks[4], toks[5], toks[6], toks[7], toks[8], toks[9], toks[10], toks[11], toks[12], toks[13], toks[14], toks[15]];
    assert(t15.push(toks[15]) =~= t16);
    assert(parse_plan(toks, pl22, 15, t15, 16) == parse_plan(toks, pl23, 16, t16, 16));
    assert(parse_plan(toks, pl23, 16, t16, 16) == Ok::<Seq<Seq<u8>>, ErrorView>(t16));
}

/// Round trip: decoding either rendering of an encoded identifier yields
/// that identifier again, for every 128-bit value.
#[verifier::rlimit(100)]
pub proof fn lemma_round_trip(lex: Lexicon, p: ComplexPhrase, n: u128)
    requires
        lex.wf(),
        p.wf(),
        p.encodes(lex, n),
    ensures
        decode_spec(
            lex,
            hyphen_bytes(
                ascii_seq(p.adjective1@),
                ascii_seq(p.noun1@),
                ascii_seq(p.verb1@),
                ascii_seq(p.adverb1@),
                ascii_seq(p.preposition1@),
                ascii_seq(p.adjective2@),
                ascii_seq(p.noun2@),
                ascii_seq(p.preposition2@),
                ascii_seq(p.noun3@),
                ascii_seq(p.verb2@),
                ascii_seq(p.adverb2@),
                ascii_seq(p.adjective3@),
                ascii_seq(p.adjective4@),
                ascii_seq(p.noun4@),
                ascii_seq(p.verb3@),
                ascii_seq(p.verb4@),
            ),
        ) == Ok::<u128, ErrorView>(n),
{
    lex.adjective.lemma_wf_len();
    lex.noun.lemma_wf_len();
    lex.verb_plural.lemma_wf_len();
    lex.adverb.lemma_wf_len();
    lex.preposition.lemma_wf_len();
    vstd::arithmetic::power2::lemma2_to64();
    lemma_pow_256();
    lemma_fillers_words();
    let a1 = ascii_seq(p.adjective1@);
    let n1 = ascii_seq(p.noun1@);
    let v1 = ascii_seq(p.verb1@);
    let d1 = ascii_seq(p.adverb1@);
    let p1 = ascii_seq(p.preposition1@);
    let a2 = ascii_seq(p.adjective2@);
    let n2 = ascii_seq(p.noun2@);
    let p2 = ascii_seq(p.preposition2@);
    let n3 = ascii_seq(p.noun3@);
    let v2 = ascii_seq(p.verb2@);
    let d2 = ascii_seq(p.adverb2@);
    let a3 = ascii_seq(p.adjective3@);
    let a4 = ascii_seq(p.adjective4@);
    let n4 = ascii_seq(p.noun4@);
    let v3 = ascii_seq(p.verb3@);
    let v4 = ascii_seq(p.verb4@);
    crate::text::lemma_word_chars_bytes(p.adjective1@);
    crate::text::lemma_word_chars_bytes(p.noun1@);
    crate::text::lemma_word_chars_bytes(p.verb1@);
    crate::text::lemma_word_chars_bytes(p.adverb1@);
    crate::text::lemma_word_chars_bytes(p.preposition1@);
    crate::text::lemma_word_chars_bytes(p.adjective2@);
    crate::text::lemma_word_chars_bytes(p.noun2@);
    crate::text::lemma_word_chars_bytes(p.preposition2@);
    crate::text::lemma_word_chars_bytes(p.noun3@);
    crate::text::lemma_word_chars_bytes(p.verb2@);
    crate::text::lemma_word_chars_bytes(p.adverb2@);
    crate::text::lemma_word_chars_bytes(p.adjective3@);
    crate::text::lemma_word_chars_bytes(p.adjective4@);
    crate::text::lemma_word_chars_bytes(p.noun4@);
    crate::text::lemma_word_chars_bytes(p.verb3@);
    crate::text::lemma_word_chars_bytes(p.verb4@);
    lemma_hyphen_tokens(a1, n1, v1, d1, p1, a2, n2, p2, n3, v2, d2, a3, a4, n4, v3, v4);
    assert(skip_set_match(SkipSet::Articles, word_the())) by {
        assert(crate::ascii::low_seq(word_the()) =~= crate::ascii::low_seq(filler_the()));
    }
    assert(skip_set_match(SkipSet::Articles, filler_the()));
    assert(skip_set_match(SkipSet::And, filler_and()));
    assert(skip_set_match(SkipSet::That, filler_that()));
    let toks_h = seq![a1, n1, v1, d1, p1, a2, n2, p2, n3, v2, d2, a3, a4, n4, v3, v4];
    lemma_parse_hyphen(toks_h);
    let out = seq![a1, n1, v1, d1, p1, a2, n2, p2, n3, v2, d2, a3, a4, n4, v3, v4];
    assert(seq![toks_h[0], toks_h[1], toks_h[2], toks_h[3], toks_h[4], toks_h[5], toks_h[6], toks_h[7], toks_h[8], toks_h[9], toks_h[10], toks_h[11], toks_h[12], toks_h[13], toks_h[14], toks_h[15]] =~= out);
    let ni = n as int;
    // prepositions: the top sixteen bits
    let pbits = ni / 0x10000000000000000000000000000;
    let pws = seq![p1, p2];
    assert(eq_ic(pws[0], lex.preposition@[norep_index(256, 0, pbits)]));
    assert(eq_ic(pws[1], lex.preposition@[norep_index(256, 1, pbits)]));
    crate::mapper::lemma_decode_norep_inverse(lex.preposition@, 256, 2, pbits, 0, pws);
    assert(pws.reverse() =~= seq![p2, p1]);
    assert(seq![out[7], out[4]] =~= seq![p2, p1]);
    assert(pbits % 0x1_0000 == pbits) by {
        assert(pbits < 0x1_0000) by {
            vstd::arithmetic::div_mod::lemma_multiply_divide_lt(ni, 0x10000000000000000000000000000, 0x1_0000);
        }
        vstd::arithmetic::div_mod::lemma_small_mod(pbits as nat, 0x1_0000);
    }
    let acc1 = pbits;
    // adverbs
    let dbits = ni / 0x1000000000000000000000000;
    let dws = seq![d1, d2];
    assert(eq_ic(dws[0], lex.adverb@[norep_index(256, 0, dbits)]));
    assert(eq_ic(dws[1], lex.adverb@[norep_index(256, 1, dbits)]));
    crate::mapper::lemma_decode_norep_inverse(lex.adverb@, 256, 2, dbits, acc1, dws);
    assert(dws.reverse() =~= seq![d2, d1]);
    assert(seq![out[10], out[3]] =~= seq![d2, d1]);
    let acc2 = acc1 * 0x1_0000 + dbits % 0x1_0000;
    assert(acc2 == dbits) by {
        crate::mapper::lemma_stage(ni, 0x1000000000000000000000000, 0x1_0000);
        vstd::arithmetic::div_mod::lemma_div_denominator(ni, 0x1000000000000000000000000, 0x1_0000);
    }
    // verbs
    let vbits = ni / 0x1_0000_0000_0000_0000;
    let vws = seq![v1, v2, v3, v4];
    assert(eq_ic(vws[0], lex.verb_plural@[norep_index(256, 0, vbits)]));
    assert(eq_ic(vws[1], lex.verb_plural@[norep_index(256, 1, vbits)]));
    assert(eq_ic(vws[2], lex.verb_plural@[norep_index(256, 2, vbits)]));
    assert(eq_ic(vws[3], lex.verb_plural@[norep_index(256, 3, vbits)]));
    crate::mapper::lemma_decode_norep_inverse(lex.verb_plural@, 256, 4, vbits, acc2, vws);
    assert(vws.reverse() =~= seq![v4, v3, v2, v1]);
    assert(seq![out[15], out[14], out[9], out[2]] =~= seq![v4, v3, v2, v1]);
    let acc3 = acc2 * 0x1_0000_0000 + vbits % 0x1_0000_0000;
    assert(acc3 == vbits) by {
        crate::mapper::lemma_stage(ni, 0x1_0000_0000_0000_0000, 0x1_0000_0000);
        vstd::arithmetic::div_mod::lemma_div_denominator(
            ni,
            0x1_0000_0000_0000_0000,
            0x1_0000_0000,
        );
    }
    // nouns
    let nbits = ni / 0x1_0000_0000;
    let nws = seq![n1, n2, n3, n4];
    assert(eq_ic(nws[0], lex.noun@[norep_index(256, 0, nbits)]));
    assert(eq_ic(nws[1], lex.noun@[norep_index(256, 1, nbits)]));
    assert(eq_ic(nws[2], lex.noun@[norep_index(256, 2, nbits)]));
    assert(eq_ic(nws[3], lex.noun@[norep_index(256, 3, nbits)]));
    crate::mapper::lemma_decode_norep_inverse(lex.noun@, 256, 4, nbits, acc3, nws);
    assert(nws.reverse() =~= seq![n4, n3, n2, n1]);
    assert(seq![out[13], out[8], out[6], out[1]] =~= seq![n4, n3, n2, n1]);
    let acc4 = acc3 * 0x1_0000_0000 + nbits % 0x1_0000_0000;
    assert(acc4 == nbits) by {
        crate::mapper::lemma_stage(ni, 0x1_0000_0000, 0x1_0000_0000);
        vstd::arithmetic::div_mod::lemma_div_denominator(ni, 0x1_0000_0000, 0x1_0000_0000);
    }
    // adjectives
    let aws = seq![a1, a2, a3, a4];
    assert(eq_ic(aws[0], lex.adjective@[norep_index(256, 0, ni)]));
    assert(eq_ic(aws[1], lex.adjective@[norep_index(256, 1, ni)]));
    assert(eq_ic(aws[2], lex.adjective@[norep_index(256, 2, ni)]));
    assert(eq_ic(aws[3], lex.adjective@[norep_index(256, 3, ni)]));
    crate::mapper::lemma_decode_norep_inverse(lex.adjective@, 256, 4, ni, acc4, aws);
    assert(aws.reverse() =~= seq![a4, a3, a2, a1]);
    assert(seq![out[12], out[11], out[5], out[0]] =~= seq![a4, a3, a2, a1]);
    let acc5 = acc4 * 0x1_0000_0000 + ni % 0x1_0000_0000;
    assert(acc5 == ni) by {
        crate::mapper::lemma_stage(ni, 1, 0x1_0000_0000);
    }
}

} // verus!
