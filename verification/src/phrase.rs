//! The 64-bit scheme: `The <adj> <adj> <noun> <verb> <adverb> <preposition>
//! the <adj> <noun>`.
//!
//! Three adjectives and two nouns come from no-repeat draws (8 and 9 bits a
//! word), the verb, adverb and preposition from single draws (10, 9, 9 bits):
//! 70 bits in all, covering all 64. Decoding feeds the words back in the
//! exact reverse order of the draws.

use vstd::prelude::*;
use vstd::string::StringSliceAdditionalSpecFns;

use crate::ascii::{ascii_seq, eq_ic, is_alpha, word_chars_ok};
use crate::eytzinger::words_bytes;
use crate::lexicon::Lexicon;
use vstd::arithmetic::power::pow;
use crate::mapper::{
    dict_find, decode_norep_spec, filler_the, lemma_dict_find_range, norep_exp, norep_index,
    string_bytes,
};
use crate::schemes::{
    parse_plan, parse_tokens, skip_set_match, take_count, Error, ErrorView, Hyphenated, SkipSet,
    Step,
};
use crate::simple_phrase::{dash, sp, word_the};
use crate::text::{
    ascii_to_string, lemma_tokenize_separated, push_str_bytes, push_word_bytes, seps_then_words,
    string_to_words, tokenize, word_bytes_ok,
};

verus! {

/// A 64-bit identifier as eight words.
pub struct Phrase {
    pub adjective1: String,
    pub adjective2: String,
    pub noun1: String,
    pub verb: String,
    pub adverb: String,
    pub preposition: String,
    pub adjective3: String,
    pub noun2: String,
}

impl Phrase {
    /// Every field is a word.
    pub open spec fn wf(&self) -> bool {
        word_chars_ok(self.adjective1@) && word_chars_ok(self.adjective2@) && word_chars_ok(
            self.noun1@,
        ) && word_chars_ok(self.verb@) && word_chars_ok(self.adverb@) && word_chars_ok(
            self.preposition@,
        ) && word_chars_ok(self.adjective3@) && word_chars_ok(self.noun2@)
    }

    /// The phrase encodes `n` over the lexicon.
    pub open spec fn encodes(&self, lex: Lexicon, n: u64) -> bool {
        &&& ascii_seq(self.adjective1@) == lex.adjective@[norep_index(256, 0, n as int)]
        &&& ascii_seq(self.adjective2@) == lex.adjective@[norep_index(256, 1, n as int)]
        &&& ascii_seq(self.adjective3@) == lex.adjective@[norep_index(256, 2, n as int)]
        &&& ascii_seq(self.noun1@) == lex.noun@[norep_index(512, 0, (n as int) / 0x100_0000)]
        &&& ascii_seq(self.noun2@) == lex.noun@[norep_index(512, 1, (n as int) / 0x100_0000)]
        &&& ascii_seq(self.verb@) == lex.verb_plural@[((n as int) / 0x400_0000_0000) % 1024]
        &&& ascii_seq(self.adverb@) == lex.adverb@[((n as int) / 0x10_0000_0000_0000) % 512]
        &&& ascii_seq(self.preposition@) == lex.preposition@[((n as int) / 0x2000_0000_0000_0000)
            % 512]
    }

    /// Encodes a 64-bit identifier as a phrase.
    pub fn encode(lex: &Lexicon, bits: u64) -> (r: Phrase)
        requires
            lex.wf(),
        ensures
            r.wf(),
            r.encodes(*lex, bits),
    {
        encode(lex, bits)
    }

    /// Wraps the phrase for hyphenated rendering.
    pub fn hyphenated(self) -> (r: Hyphenated<Phrase>)
        ensures
            r.0 == self,
    {
        Hyphenated(self)
    }

    /// The natural rendering.
    pub fn text(&self) -> (r: String)
        requires
            self.wf(),
        ensures
            ascii_seq(r@) == natural_bytes(
                ascii_seq(self.adjective1@),
                ascii_seq(self.adjective2@),
                ascii_seq(self.noun1@),
                ascii_seq(self.verb@),
                ascii_seq(self.adverb@),
                ascii_seq(self.preposition@),
                ascii_seq(self.adjective3@),
                ascii_seq(self.noun2@),
            ),
    {
        let mut buf: Vec<u8> = Vec::new();
        proof {
            reveal_strlit("The ");
            reveal_strlit(" ");
            reveal_strlit(" the ");
        }
        push_str_bytes(&mut buf, "The ");
        push_word_bytes(&mut buf, &self.adjective1);
        push_str_bytes(&mut buf, " ");
        push_word_bytes(&mut buf, &self.adjective2);
        push_str_bytes(&mut buf, " ");
        push_word_bytes(&mut buf, &self.noun1);
        push_str_bytes(&mut buf, " ");
        push_word_bytes(&mut buf, &self.verb);
        push_str_bytes(&mut buf, " ");
        push_word_bytes(&mut buf, &self.adverb);
        push_str_bytes(&mut buf, " ");
        push_word_bytes(&mut buf, &self.preposition);
        push_str_bytes(&mut buf, " the ");
        push_word_bytes(&mut buf, &self.adjective3);
        push_str_bytes(&mut buf, " ");
        push_word_bytes(&mut buf, &self.noun2);
        let ghost bufg = buf@;
        let r = ascii_to_string(buf);
        proof {
            assert(ascii_seq("The "@) =~= word_the() + sp());
            assert(ascii_seq(" "@) =~= sp());
            assert(ascii_seq(" the "@) =~= sp() + filler_the() + sp());
            assert(ascii_seq(r@) =~= bufg);
            assert(bufg =~= natural_bytes(
                ascii_seq(self.adjective1@),
                ascii_seq(self.adjective2@),
                ascii_seq(self.noun1@),
                ascii_seq(self.verb@),
                ascii_seq(self.adverb@),
                ascii_seq(self.preposition@),
                ascii_seq(self.adjective3@),
                ascii_seq(self.noun2@),
            ));
        }
        r
    }
}

impl Hyphenated<Phrase> {
    /// The compact rendering: the eight words joined by hyphens.
    pub fn text(&self) -> (r: String)
        requires
            self.0.wf(),
        ensures
            ascii_seq(r@) == hyphen_bytes(
                ascii_seq(self.0.adjective1@),
                ascii_seq(self.0.adjective2@),
                ascii_seq(self.0.noun1@),
                ascii_seq(self.0.verb@),
                ascii_seq(self.0.adverb@),
                ascii_seq(self.0.preposition@),
                ascii_seq(self.0.adjective3@),
                ascii_seq(self.0.noun2@),
            ),
    {
        let mut buf: Vec<u8> = Vec::new();
        proof {
            reveal_strlit("-");
        }
        push_word_bytes(&mut buf, &self.0.adjective1);
        push_str_bytes(&mut buf, "-");
        push_word_bytes(&mut buf, &self.0.adjective2);
        push_str_bytes(&mut buf, "-");
        push_word_bytes(&mut buf, &self.0.noun1);
        push_str_bytes(&mut buf, "-");
        push_word_bytes(&mut buf, &self.0.verb);
        push_str_bytes(&mut buf, "-");
        push_word_bytes(&mut buf, &self.0.adverb);
        push_str_bytes(&mut buf, "-");
        push_word_bytes(&mut buf, &self.0.preposition);
        push_str_bytes(&mut buf, "-");
        push_word_bytes(&mut buf, &self.0.adjective3);
        push_str_bytes(&mut buf, "-");
        push_word_bytes(&mut buf, &self.0.noun2);
        let ghost bufg = buf@;
        let r = ascii_to_string(buf);
        proof {
            assert(ascii_seq("-"@) =~= dash());
            assert(ascii_seq(r@) =~= bufg);
            assert(bufg =~= hyphen_bytes(
                ascii_seq(self.0.adjective1@),
                ascii_seq(self.0.adjective2@),
                ascii_seq(self.0.noun1@),
                ascii_seq(self.0.verb@),
                ascii_seq(self.0.adverb@),
                ascii_seq(self.0.preposition@),
                ascii_seq(self.0.adjective3@),
                ascii_seq(self.0.noun2@),
            ));
        }
        r
    }
}

/// The bytes of the natural rendering.
pub open spec fn natural_bytes(
    a1: Seq<u8>,
    a2: Seq<u8>,
    n1: Seq<u8>,
    v: Seq<u8>,
    d: Seq<u8>,
    p: Seq<u8>,
    a3: Seq<u8>,
    n2: Seq<u8>,
) -> Seq<u8> {
    word_the() + sp() + a1 + sp() + a2 + sp() + n1 + sp() + v + sp() + d + sp() + p + sp()
        + filler_the() + sp() + a3 + sp() + n2
}

/// The bytes of the hyphenated rendering.
pub open spec fn hyphen_bytes(
    a1: Seq<u8>,
    a2: Seq<u8>,
    n1: Seq<u8>,
    v: Seq<u8>,
    d: Seq<u8>,
    p: Seq<u8>,
    a3: Seq<u8>,
    n2: Seq<u8>,
) -> Seq<u8> {
    a1 + dash() + a2 + dash() + n1 + dash() + v + dash() + d + dash() + p + dash() + a3 + dash()
        + n2
}

/// The parsing template: an optional article, six content words, another
/// optional article, two more content words.
pub open spec fn plan_spec() -> Seq<Step> {
    seq![
        Step::Skip(SkipSet::Articles),
        Step::Take,
        Step::Take,
        Step::Take,
        Step::Take,
        Step::Take,
        Step::Take,
        Step::Skip(SkipSet::Articles),
        Step::Take,
        Step::Take,
    ]
}

/// The dictionary lookups and bit reassembly over parsed content words.
pub open spec fn decode_words_value(lex: Lexicon, ws: Seq<Seq<u8>>) -> Result<u64, ErrorView> {
    match dict_find(lex.preposition@, ws[5]) {
        None => Err(ErrorView::Unrecognized { word: ws[5] }),
        Some(pi) => match dict_find(lex.adverb@, ws[4]) {
            None => Err(ErrorView::Unrecognized { word: ws[4] }),
            Some(di) => match dict_find(lex.verb_plural@, ws[3]) {
                None => Err(ErrorView::Unrecognized { word: ws[3] }),
                Some(vi) => {
                    let acc = (pi * 512 + di) * 1024 + vi;
                    match decode_norep_spec(lex.noun@, seq![ws[7], ws[2]], acc, 512) {
                        Err(e) => Err(ErrorView::Unrecognized { word: seq![ws[7], ws[2]][e] }),
                        Ok(acc2) => match decode_norep_spec(
                            lex.adjective@,
                            seq![ws[6], ws[1], ws[0]],
                            acc2,
                            256,
                        ) {
                            Err(e) => Err(
                                ErrorView::Unrecognized { word: seq![ws[6], ws[1], ws[0]][e] },
                            ),
                            Ok(v) => Ok((v % 0x1_0000_0000_0000_0000) as u64),
                        },
                    }
                },
            },
        },
    }
}

/// What decoding returns on any input text, over the lexicon.
pub open spec fn decode_spec(lex: Lexicon, bytes: Seq<u8>) -> Result<u64, ErrorView> {
    let toks = tokenize(bytes);
    match parse_plan(toks, plan_spec(), 0, seq![], 8) {
        Err(e) => Err(e),
        Ok(ws) => decode_words_value(lex, ws),
    }
}

/// Encodes a 64-bit identifier as a phrase.
pub fn encode(lex: &Lexicon, bits: u64) -> (r: Phrase)
    requires
        lex.wf(),
    ensures
        r.wf(),
        r.encodes(*lex, bits),
{
    proof {
        lex.adjective.lemma_wf_len();
        lex.noun.lemma_wf_len();
        vstd::arithmetic::power2::lemma2_to64();
        lemma_norep_small();
    }
    let (adjs, rest) = lex.adjective.encode_words_norepeat(3, bits as u128);
    proof {
        lemma_pow_256();
        lemma_pow_512();
        assert(rest == (bits as int) / 0x100_0000);
    }
    let (nouns, rest) = lex.noun.encode_words_norepeat(2, rest);
    proof {
        crate::mapper::lemma_stage(bits as int, 1, 1);
        vstd::arithmetic::div_mod::lemma_div_denominator(bits as int, 0x100_0000, 0x4_0000);
        assert(rest == (bits as int) / 0x400_0000_0000);
    }
    let (verb, rest) = lex.verb_plural.encode_word(rest);
    proof {
        vstd::arithmetic::div_mod::lemma_div_denominator(bits as int, 0x400_0000_0000, 1024);
        assert(rest == (bits as int) / 0x10_0000_0000_0000);
    }
    let (adverb, rest) = lex.adverb.encode_word(rest);
    proof {
        vstd::arithmetic::div_mod::lemma_div_denominator(bits as int, 0x10_0000_0000_0000, 512);
        assert(rest == (bits as int) / 0x2000_0000_0000_0000);
    }
    let (preposition, rest) = lex.preposition.encode_word(rest);
    proof {
        // after all draws nothing of the integer is left
        assert((bits as int) / 0x2000_0000_0000_0000 < 8);
        vstd::arithmetic::div_mod::lemma_basic_div((bits as int) / 0x2000_0000_0000_0000, 512);
        assert(rest == 0);
    }
    Phrase {
        adjective1: adjs[0].clone(),
        adjective2: adjs[1].clone(),
        noun1: nouns[0].clone(),
        verb,
        adverb,
        preposition,
        adjective3: adjs[2].clone(),
        noun2: nouns[1].clone(),
    }
}

/// The no-repeat exponents of two- and three-word draws.
proof fn lemma_norep_small()
    ensures
        norep_exp(1) == 0,
        norep_exp(2) == 1,
        norep_exp(3) == 2,
        norep_exp(4) == 2,
{
    assert(norep_exp(1) == 0);
    assert(norep_exp(2) == 1 + norep_exp(1));
    assert(norep_exp(3) == 1 + norep_exp(2));
    assert(norep_exp(4) == 1 + norep_exp(2));
}

/// Powers of the 256-word block.
proof fn lemma_pow_256()
    ensures
        pow(256, 0) == 1,
        pow(256, 1) == 256,
        pow(256, 2) == 0x1_0000,
        pow(256, 3) == 0x100_0000,
        pow(256, 4) == 0x1_0000_0000,
{
    vstd::arithmetic::power::lemma_pow0(256);
    vstd::arithmetic::power::lemma_pow1(256);
    vstd::arithmetic::power::lemma_pow_adds(256, 1, 1);
    vstd::arithmetic::power::lemma_pow_adds(256, 2, 1);
    vstd::arithmetic::power::lemma_pow_adds(256, 3, 1);
}

/// Powers of the 512-word block.
proof fn lemma_pow_512()
    ensures
        pow(512, 0) == 1,
        pow(512, 1) == 512,
        pow(512, 2) == 0x4_0000,
{
    vstd::arithmetic::power::lemma_pow0(512);
    vstd::arithmetic::power::lemma_pow1(512);
    vstd::arithmetic::power::lemma_pow_adds(512, 1, 1);
}

/// Decodes free text against the phrase template: the exact reverse of
/// `encode`.
pub fn decode(lex: &Lexicon, s: &str) -> (r: Result<u64, Error>)
    requires
        lex.wf(),
    ensures
        match r {
            Ok(n) => decode_spec(*lex, s.spec_bytes()) == Ok::<u64, ErrorView>(n),
            Err(e) => decode_spec(*lex, s.spec_bytes()) == Err::<u64, ErrorView>(e@) && e.wf(),
        },
{
    let toks = string_to_words(s);
    let mut plan: Vec<Step> = Vec::new();
    plan.push(Step::Skip(SkipSet::Articles));
    let mut k: usize = 0;
    while k < 6
        invariant
            k <= 6,
            plan@.len() == 1 + k,
            plan@[0] == Step::Skip(SkipSet::Articles),
            forall|i: int| 1 <= i < plan@.len() ==> plan@[i] == Step::Take,
        decreases 6 - k,
    {
        plan.push(Step::Take);
        k = k + 1;
    }
    plan.push(Step::Skip(SkipSet::Articles));
    plan.push(Step::Take);
    plan.push(Step::Take);
    proof {
        assert(plan@ =~= plan_spec());
    }
    let ws = match parse_tokens(&toks, &plan, 8) {
        Err(e) => {
            return Err(e);
        },
        Ok(ws) => ws,
    };
    proof {
        lex.preposition.lemma_wf_len();
        lex.adverb.lemma_wf_len();
        lex.verb_plural.lemma_wf_len();
        lex.noun.lemma_wf_len();
        lex.adjective.lemma_wf_len();
        vstd::arithmetic::power2::lemma2_to64();
        vstd::arithmetic::power2::lemma_pow2_pos(118);
        vstd::arithmetic::power2::lemma_pow2_pos(119);
        vstd::arithmetic::power2::lemma_pow2_pos(110);
        vstd::arithmetic::power2::lemma_pow2_pos(104);
        lemma_dict_find_range(lex.preposition@, words_bytes(ws@)[5]);
        lemma_dict_find_range(lex.adverb@, words_bytes(ws@)[4]);
        lemma_dict_find_range(lex.verb_plural@, words_bytes(ws@)[3]);
        crate::schemes::lemma_parse_plan_len(tokenize(s.spec_bytes()), plan_spec(), 0, seq![], 8);
        lemma_plan_take_count();
        assert(ws@.len() == 8);
        assert forall|i: int| 0 <= i < ws@.len() implies string_bytes(#[trigger] ws@[i]@)
            == words_bytes(ws@)[i] by {
            let w = ws@[i]@;
            assert forall|kk: int| 0 <= kk < w.len() implies '\0' <= #[trigger] w[kk]
                <= '\u{7f}' by {
                assert(crate::ascii::char_is_alpha(w[kk]));
            }
            vstd::utf8::is_ascii_chars_encode_utf8(w);
            assert(string_bytes(w) =~= ascii_seq(w));
        }
    }
    let ghost wsb = words_bytes(ws@);
    let ghost pi = dict_find(lex.preposition@, wsb[5]).unwrap();
    let ghost di = dict_find(lex.adverb@, wsb[4]).unwrap();
    let ghost vi = dict_find(lex.verb_plural@, wsb[3]).unwrap();
    let acc1 = match lex.preposition.decode_word(ws[5].as_str(), 0) {
        None => {
            return Err(unrecognized(&ws, 5));
        },
        Some(acc) => acc,
    };
    proof {
        vstd::arithmetic::power2::lemma_pow2_strictly_increases(9, 119);
        assert(acc1 as int == pi);
        assert((acc1 as int) < 512);
    }
    let acc2 = match lex.adverb.decode_word(ws[4].as_str(), acc1) {
        None => {
            return Err(unrecognized(&ws, 4));
        },
        Some(acc) => acc,
    };
    proof {
        vstd::arithmetic::power2::lemma_pow2_strictly_increases(18, 118);
        assert(acc2 as int == pi * 512 + di);
        assert((acc2 as int) < 0x4_0000);
    }
    let acc3 = match lex.verb_plural.decode_word(ws[3].as_str(), acc2) {
        None => {
            return Err(unrecognized(&ws, 3));
        },
        Some(acc) => acc,
    };
    proof {
        vstd::arithmetic::power2::lemma_pow2_strictly_increases(28, 110);
        assert(acc3 as int == (pi * 512 + di) * 1024 + vi);
        assert((acc3 as int) < 0x1000_0000);
        lemma_norep_small();
    }
    let mut nouns_r: Vec<String> = Vec::new();
    nouns_r.push(ws[7].clone());
    nouns_r.push(ws[2].clone());
    proof {
        assert(crate::mapper::strs_bytes(nouns_r@) =~= seq![wsb[7], wsb[2]]);
    }
    let acc4 = match lex.noun.decode_words_norepeat(&nouns_r, acc3) {
        Err(i) => {
            proof {
                crate::mapper::lemma_decode_norep_err(
                    lex.noun@,
                    seq![wsb[7], wsb[2]],
                    acc3 as int,
                    512,
                );
            }
            let which: usize = if i == 0 {
                7
            } else {
                2
            };
            return Err(unrecognized(&ws, which));
        },
        Ok(acc) => acc,
    };
    proof {
        lemma_pow_512();
        crate::mapper::lemma_decode_norep_bound(
            lex.noun@,
            seq![wsb[7], wsb[2]],
            acc3 as int,
            512,
        );
        assert(decode_norep_spec(lex.noun@, seq![wsb[7], wsb[2]], acc3 as int, 512) == Ok::<
            int,
            int,
        >(acc4 as int));
        assert((acc4 as int) < 0x4000_0000_0000);
        vstd::arithmetic::power2::lemma2_to64_rest();
        vstd::arithmetic::power2::lemma_pow2_strictly_increases(46, 104);
        lemma_norep_small();
        assert((acc4 as int) < vstd::arithmetic::power2::pow2(104));
    }
    let mut adjs_r: Vec<String> = Vec::new();
    adjs_r.push(ws[6].clone());
    adjs_r.push(ws[1].clone());
    adjs_r.push(ws[0].clone());
    proof {
        assert(crate::mapper::strs_bytes(adjs_r@) =~= seq![wsb[6], wsb[1], wsb[0]]);
    }
    let acc5 = match lex.adjective.decode_words_norepeat(&adjs_r, acc4) {
        Err(i) => {
            proof {
                crate::mapper::lemma_decode_norep_err(
                    lex.adjective@,
                    seq![wsb[6], wsb[1], wsb[0]],
                    acc4 as int,
                    256,
                );
            }
            let which: usize = if i == 0 {
                6
            } else if i == 1 {
                1
            } else {
                0
            };
            return Err(unrecognized(&ws, which));
        },
        Ok(acc) => acc,
    };
    let r = #[verifier::truncate] (acc5 as u64);
    proof {
        lemma_pow_256();
        crate::mapper::lemma_decode_norep_bound(
            lex.adjective@,
            seq![wsb[6], wsb[1], wsb[0]],
            acc4 as int,
            256,
        );
        assert(decode_norep_spec(lex.adjective@, seq![wsb[6], wsb[1], wsb[0]], acc4 as int, 256)
            == Ok::<int, int>(acc5 as int));
        assert(((acc5 as u64) as u128) == acc5 % 0x1_0000_0000_0000_0000u128) by (bit_vector);
        assert(r as int == (acc5 as int) % 0x1_0000_0000_0000_0000);
    }
    Ok(r)
}

/// The template reads eight content words.
proof fn lemma_plan_take_count()
    ensures
        take_count(plan_spec()) == 8,
{
    let p0 = plan_spec();
    let q1 = seq![Step::Take, Step::Take, Step::Take, Step::Take, Step::Take, Step::Take, Step::Skip(SkipSet::Articles), Step::Take, Step::Take];
    let q2 = seq![Step::Take, Step::Take, Step::Take, Step::Take, Step::Take, Step::Skip(SkipSet::Articles), Step::Take, Step::Take];
    let q3 = seq![Step::Take, Step::Take, Step::Take, Step::Take, Step::Skip(SkipSet::Articles), Step::Take, Step::Take];
    let q4 = seq![Step::Take, Step::Take, Step::Take, Step::Skip(SkipSet::Articles), Step::Take, Step::Take];
    let q5 = seq![Step::Take, Step::Take, Step::Skip(SkipSet::Articles), Step::Take, Step::Take];
    let q6 = seq![Step::Take, Step::Skip(SkipSet::Articles), Step::Take, Step::Take];
    let q7 = seq![Step::Skip(SkipSet::Articles), Step::Take, Step::Take];
    let q8 = seq![Step::Take, Step::Take];
    let q9 = seq![Step::Take];
    let q10 = Seq::<Step>::empty();
    assert(p0.drop_first() =~= q1);
    assert(q1.drop_first() =~= q2);
    assert(q2.drop_first() =~= q3);
    assert(q3.drop_first() =~= q4);
    assert(q4.drop_first() =~= q5);
    assert(q5.drop_first() =~= q6);
    assert(q6.drop_first() =~= q7);
    assert(q7.drop_first() =~= q8);
    assert(q8.drop_first() =~= q9);
    assert(q9.drop_first() =~= q10);
    assert(take_count(q10) == 0);
    assert(take_count(q9) == 1);
    assert(take_count(q8) == 2);
    assert(take_count(q7) == 2);
    assert(take_count(q6) == 3);
    assert(take_count(q5) == 4);
    assert(take_count(q4) == 5);
    assert(take_count(q3) == 6);
    assert(take_count(q2) == 7);
    assert(take_count(q1) == 8);
    assert(take_count(p0) == 8);
}

/// Reports a word missing from its dictionary.
fn unrecognized(ws: &Vec<String>, i: usize) -> (r: Error)
    requires
        i < ws@.len(),
        word_chars_ok(ws@[i as int]@),
    ensures
        r@ == (ErrorView::Unrecognized { word: words_bytes(ws@)[i as int] }),
        r.wf(),
{
    let w = ws[i].clone();
    proof {
        let s = w@;
        assert forall|k: int| 0 <= k < s.len() implies '\0' <= #[trigger] s[k] <= '\u{7f}' by {
            assert(crate::ascii::char_is_alpha(s[k]));
        }
        vstd::utf8::is_ascii_chars_encode_utf8(w@);
        assert(string_bytes(w@) =~= ascii_seq(w@));
    }
    Error::Unrecognized { word: w }
}

/// The words of the natural rendering.
#[verifier::rlimit(60)]
proof fn lemma_natural_tokens(
    a1: Seq<u8>,
    a2: Seq<u8>,
    n1: Seq<u8>,
    v: Seq<u8>,
    dd: Seq<u8>,
    pr: Seq<u8>,
    a3: Seq<u8>,
    n2: Seq<u8>,
)
    requires
        word_bytes_ok(a1),
        word_bytes_ok(a2),
        word_bytes_ok(n1),
        word_bytes_ok(v),
        word_bytes_ok(dd),
        word_bytes_ok(pr),
        word_bytes_ok(a3),
        word_bytes_ok(n2),
    ensures
        tokenize(natural_bytes(a1, a2, n1, v, dd, pr, a3, n2)) == seq![
            word_the(),
            a1,
            a2,
            n1,
            v,
            dd,
            pr,
            filler_the(),
            a3,
            n2,
        ],
{
    assert(word_bytes_ok(word_the())) by {
        assert(is_alpha(word_the()[0]));
        assert(is_alpha(word_the()[1]));
        assert(is_alpha(word_the()[2]));
    }
    assert(word_bytes_ok(filler_the())) by {
        assert(is_alpha(filler_the()[0]));
        assert(is_alpha(filler_the()[1]));
        assert(is_alpha(filler_the()[2]));
    }
    let toks = seq![word_the(), a1, a2, n1, v, dd, pr, filler_the(), a3, n2];
    let seps = seq![
        Seq::<u8>::empty(),
        sp(),
        sp(),
        sp(),
        sp(),
        sp(),
        sp(),
        sp(),
        sp(),
        sp(),
    ];
    assert(seps_then_words(seq![sp()], seq![n2]) =~= sp() + n2 + (Seq::<u8>::empty())) by {
        assert(seq![sp()].drop_first() =~= Seq::<Seq<u8>>::empty());
        assert(seq![n2].drop_first() =~= Seq::<Seq<u8>>::empty());
        assert(seps_then_words(Seq::<Seq<u8>>::empty(), Seq::<Seq<u8>>::empty()) == Seq::<u8>::empty());
    }
    assert(seps_then_words(seq![sp(), sp()], seq![a3, n2]) =~= sp() + a3 + (sp() + n2 + (Seq::<u8>::empty()))) by {
        assert(seq![sp(), sp()].drop_first() =~= seq![sp()]);
        assert(seq![a3, n2].drop_first() =~= seq![n2]);
    }
    assert(seps_then_words(seq![sp(), sp(), sp()], seq![filler_the(), a3, n2]) =~= sp() + filler_the() + (sp() + a3 + (sp() + n2 + (Seq::<u8>::empty())))) by {
        assert(seq![sp(), sp(), sp()].drop_first() =~= seq![sp(), sp()]);
        assert(seq![filler_the(), a3, n2].drop_first() =~= seq![a3, n2]);
    }
    assert(seps_then_words(seq![sp(), sp(), sp(), sp()], seq![pr, filler_the(), a3, n2]) =~= sp() + pr + (sp() + filler_the() + (sp() + a3 + (sp() + n2 + (Seq::<u8>::empty()))))) by {
        assert(seq![sp(), sp(), sp(), sp()].drop_first() =~= seq![sp(), sp(), sp()]);
        assert(seq![pr, filler_the(), a3, n2].drop_first() =~= seq![filler_the(), a3, n2]);
    }
    assert(seps_then_words(seq![sp(), sp(), sp(), sp(), sp()], seq![dd, pr, filler_the(), a3, n2]) =~= sp() + dd + (sp() + pr + (sp() + filler_the() + (sp() + a3 + (sp() + n2 + (Seq::<u8>::empty())))))) by {
        assert(seq![sp(), sp(), sp(), sp(), sp()].drop_first() =~= seq![sp(), sp(), sp(), sp()]);
        assert(seq![dd, pr, filler_the(), a3, n2].drop_first() =~= seq![pr, filler_the(), a3, n2]);
    }
    assert(seps_then_words(seq![sp(), sp(), sp(), sp(), sp(), sp()], seq![v, dd, pr, filler_the(), a3, n2]) =~= sp() + v + (sp() + dd + (sp() + pr + (sp() + filler_the() + (sp() + a3 + (sp() + n2 + (Seq::<u8>::empty()))))))) by {
        assert(seq![sp(), sp(), sp(), sp(), sp(), sp()].drop_first() =~= seq![sp(), sp(), sp(), sp(), sp()]);
        assert(seq![v, dd, pr, filler_the(), a3, n2].drop_first() =~= seq![dd, pr, filler_the(), a3, n2]);
    }
    assert(seps_then_words(seq![sp(), sp(), sp(), sp(), sp(), sp(), sp()], seq![n1, v, dd, pr, filler_the(), a3, n2]) =~= sp() + n1 + (sp() + v + (sp() + dd + (sp() + pr + (sp() + filler_the() + (sp() + a3 + (sp() + n2 + (Seq::<u8>::empty())))))))) by {
        assert(seq![sp(), sp(), sp(), sp(), sp(), sp(), sp()].drop_first() =~= seq![sp(), sp(), sp(), sp(), sp(), sp()]);
        assert(seq![n1, v, dd, pr, filler_the(), a3, n2].drop_first() =~= seq![v, dd, pr, filler_the(), a3, n2]);
    }
    assert(seps_then_words(seq![sp(), sp(), sp(), sp(), sp(), sp(), sp(), sp()], seq![a2, n1, v, dd, pr, filler_the(), a3, n2]) =~= sp() + a2 + (sp() + n1 + (sp() + v + (sp() + dd + (sp() + pr + (sp() + filler_the() + (sp() + a3 + (sp() + n2 + (Seq::<u8>::empty()))))))))) by {
        assert(seq![sp(), sp(), sp(), sp(), sp(), sp(), sp(), sp()].drop_first() =~= seq![sp(), sp(), sp(), sp(), sp(), sp(), sp()]);
        assert(seq![a2, n1, v, dd, pr, filler_the(), a3, n2].drop_first() =~= seq![n1, v, dd, pr, filler_the(), a3, n2]);
    }
    assert(seps_then_words(seq![sp(), sp(), sp(), sp(), sp(), sp(), sp(), sp(), sp()], seq![a1, a2, n1, v, dd, pr, filler_the(), a3, n2]) =~= sp() + a1 + (sp() + a2 + (sp() + n1 + (sp() + v + (sp() + dd + (sp() + pr + (sp() + filler_the() + (sp() + a3 + (sp() + n2 + (Seq::<u8>::empty())))))))))) by {
        assert(seq![sp(), sp(), sp(), sp(), sp(), sp(), sp(), sp(), sp()].drop_first() =~= seq![sp(), sp(), sp(), sp(), sp(), sp(), sp(), sp()]);
        assert(seq![a1, a2, n1, v, dd, pr, filler_the(), a3, n2].drop_first() =~= seq![a2, n1, v, dd, pr, filler_the(), a3, n2]);
    }
    assert(seps_then_words(seq![Seq::<u8>::empty(), sp(), sp(), sp(), sp(), sp(), sp(), sp(), sp(), sp()], seq![word_the(), a1, a2, n1, v, dd, pr, filler_the(), a3, n2]) =~= Seq::<u8>::empty() + word_the() + (sp() + a1 + (sp() + a2 + (sp() + n1 + (sp() + v + (sp() + dd + (sp() + pr + (sp() + filler_the() + (sp() + a3 + (sp() + n2 + (Seq::<u8>::empty()))))))))))) by {
        assert(seq![Seq::<u8>::empty(), sp(), sp(), sp(), sp(), sp(), sp(), sp(), sp(), sp()].drop_first() =~= seq![sp(), sp(), sp(), sp(), sp(), sp(), sp(), sp(), sp()]);
        assert(seq![word_the(), a1, a2, n1, v, dd, pr, filler_the(), a3, n2].drop_first() =~= seq![a1, a2, n1, v, dd, pr, filler_the(), a3, n2]);
    }
    assert((Seq::<u8>::empty() + word_the() + (sp() + a1 + (sp() + a2 + (sp() + n1 + (sp() + v + (sp() + dd + (sp() + pr + (sp() + filler_the() + (sp() + a3 + (sp() + n2 + (Seq::<u8>::empty()))))))))))) =~= natural_bytes(a1, a2, n1, v, dd, pr, a3, n2));
    assert(seps_then_words(seps, toks) =~= natural_bytes(a1, a2, n1, v, dd, pr, a3, n2));
    lemma_tokenize_separated(seps, toks);
}

/// The words of the hyphenated rendering.
#[verifier::rlimit(60)]
proof fn lemma_hyphen_tokens(
    a1: Seq<u8>,
    a2: Seq<u8>,
    n1: Seq<u8>,
    v: Seq<u8>,
    dd: Seq<u8>,
    pr: Seq<u8>,
    a3: Seq<u8>,
    n2: Seq<u8>,
)
    requires
        word_bytes_ok(a1),
        word_bytes_ok(a2),
        word_bytes_ok(n1),
        word_bytes_ok(v),
        word_bytes_ok(dd),
        word_bytes_ok(pr),
        word_bytes_ok(a3),
        word_bytes_ok(n2),
    ensures
        tokenize(hyphen_bytes(a1, a2, n1, v, dd, pr, a3, n2)) == seq![
            a1,
            a2,
            n1,
            v,
            dd,
            pr,
            a3,
            n2,
        ],
{
    let toks = seq![a1, a2, n1, v, dd, pr, a3, n2];
    let seps = seq![
        Seq::<u8>::empty(),
        dash(),
        dash(),
        dash(),
        dash(),
        dash(),
        dash(),
        dash(),
    ];
    assert(seps_then_words(seq![dash()], seq![n2]) =~= dash() + n2 + (Seq::<u8>::empty())) by {
        assert(seq![dash()].drop_first() =~= Seq::<Seq<u8>>::empty());
        assert(seq![n2].drop_first() =~= Seq::<Seq<u8>>::empty());
        assert(seps_then_words(Seq::<Seq<u8>>::empty(), Seq::<Seq<u8>>::empty()) == Seq::<u8>::empty());
    }
    assert(seps_then_words(seq![dash(), dash()], seq![a3, n2]) =~= dash() + a3 + (dash() + n2 + (Seq::<u8>::empty()))) by {
        assert(seq![dash(), dash()].drop_first() =~= seq![dash()]);
        assert(seq![a3, n2].drop_first() =~= seq![n2]);
    }
    assert(seps_then_words(seq![dash(), dash(), dash()], seq![pr, a3, n2]) =~= dash() + pr + (dash() + a3 + (dash() + n2 + (Seq::<u8>::empty())))) by {
        assert(seq![dash(), dash(), dash()].drop_first() =~= seq![dash(), dash()]);
        assert(seq![pr, a3, n2].drop_first() =~= seq![a3, n2]);
    }
    assert(seps_then_words(seq![dash(), dash(), dash(), dash()], seq![dd, pr, a3, n2]) =~= dash() + dd + (dash() + pr + (dash() + a3 + (dash() + n2 + (Seq::<u8>::empty()))))) by {
        assert(seq![dash(), dash(), dash(), dash()].drop_first() =~= seq![dash(), dash(), dash()]);
        assert(seq![dd, pr, a3, n2].drop_first() =~= seq![pr, a3, n2]);
    }
    assert(seps_then_words(seq![dash(), dash(), dash(), dash(), dash()], seq![v, dd, pr, a3, n2]) =~= dash() + v + (dash() + dd + (dash() + pr + (dash() + a3 + (dash() + n2 + (Seq::<u8>::empty())))))) by {
        assert(seq![dash(), dash(), dash(), dash(), dash()].drop_first() =~= seq![dash(), dash(), dash(), dash()]);
        assert(seq![v, dd, pr, a3, n2].drop_first() =~= seq![dd, pr, a3, n2]);
    }
    assert(seps_then_words(seq![dash(), dash(), dash(), dash(), dash(), dash()], seq![n1, v, dd, pr, a3, n2]) =~= dash() + n1 + (dash() + v + (dash() + dd + (dash() + pr + (dash() + a3 + (dash() + n2 + (Seq::<u8>::empty()))))))) by {
        assert(seq![dash(), dash(), dash(), dash(), dash(), dash()].drop_first() =~= seq![dash(), dash(), dash(), dash(), dash()]);
        assert(seq![n1, v, dd, pr, a3, n2].drop_first() =~= seq![v, dd, pr, a3, n2]);
    }
    assert(seps_then_words(seq![dash(), dash(), dash(), dash(), dash(), dash(), dash()], seq![a2, n1, v, dd, pr, a3, n2]) =~= dash() + a2 + (dash() + n1 + (dash() + v + (dash() + dd + (dash() + pr + (dash() + a3 + (dash() + n2 + (Seq::<u8>::empty())))))))) by {
        assert(seq![dash(), dash(), dash(), dash(), dash(), dash(), dash()].drop_first() =~= seq![dash(), dash(), dash(), dash(), dash(), dash()]);
        assert(seq![a2, n1, v, dd, pr, a3, n2].drop_first() =~= seq![n1, v, dd, pr, a3, n2]);
    }
    assert(seps_then_words(seq![Seq::<u8>::empty(), dash(), dash(), dash(), dash(), dash(), dash(), dash()], seq![a1, a2, n1, v, dd, pr, a3, n2]) =~= Seq::<u8>::empty() + a1 + (dash() + a2 + (dash() + n1 + (dash() + v + (dash() + dd + (dash() + pr + (dash() + a3 + (dash() + n2 + (Seq::<u8>::empty()))))))))) by {
        assert(seq![Seq::<u8>::empty(), dash(), dash(), dash(), dash(), dash(), dash(), dash()].drop_first() =~= seq![dash(), dash(), dash(), dash(), dash(), dash(), dash()]);
        assert(seq![a1, a2, n1, v, dd, pr, a3, n2].drop_first() =~= seq![a2, n1, v, dd, pr, a3, n2]);
    }
    assert((Seq::<u8>::empty() + a1 + (dash() + a2 + (dash() + n1 + (dash() + v + (dash() + dd + (dash() + pr + (dash() + a3 + (dash() + n2 + (Seq::<u8>::empty()))))))))) =~= hyphen_bytes(a1, a2, n1, v, dd, pr, a3, n2));
    assert(seps_then_words(seps, toks) =~= hyphen_bytes(a1, a2, n1, v, dd, pr, a3, n2));
    lemma_tokenize_separated(seps, toks);
}

/// Running the template over the natural rendering's words: both articles
/// are skipped.
#[verifier::rlimit(30)]
proof fn lemma_parse_natural(toks: Seq<Seq<u8>>)
    requires
        toks.len() == 10,
        skip_set_match(SkipSet::Articles, toks[0]),
        skip_set_match(SkipSet::Articles, toks[7]),
    ensures
        parse_plan(toks, plan_spec(), 0, seq![], 8) == Ok::<Seq<Seq<u8>>, ErrorView>(
            seq![toks[1], toks[2], toks[3], toks[4], toks[5], toks[6], toks[8], toks[9]],
        ),
{
    assert(plan_spec() =~= seq![Step::Skip(SkipSet::Articles), Step::Take, Step::Take, Step::Take, Step::Take, Step::Take, Step::Take, Step::Skip(SkipSet::Articles), Step::Take, Step::Take]);
    let pl0 = plan_spec();
    let pl1 = seq![Step::Take, Step::Take, Step::Take, Step::Take, Step::Take, Step::Take, Step::Skip(SkipSet::Articles), Step::Take, Step::Take];
    let pl2 = seq![Step::Take, Step::Take, Step::Take, Step::Take, Step::Take, Step::Skip(SkipSet::Articles), Step::Take, Step::Take];
    let pl3 = seq![Step::Take, Step::Take, Step::Take, Step::Take, Step::Skip(SkipSet::Articles), Step::Take, Step::Take];
    let pl4 = seq![Step::Take, Step::Take, Step::Take, Step::Skip(SkipSet::Articles), Step::Take, Step::Take];
    let pl5 = seq![Step::Take, Step::Take, Step::Skip(SkipSet::Articles), Step::Take, Step::Take];
    let pl6 = seq![Step::Take, Step::Skip(SkipSet::Articles), Step::Take, Step::Take];
    let pl7 = seq![Step::Skip(SkipSet::Articles), Step::Take, Step::Take];
    let pl8 = seq![Step::Take, Step::Take];
    let pl9 = seq![Step::Take];
    let pl10 = Seq::<Step>::empty();
    assert(pl0.drop_first() =~= pl1);
    assert(pl1.drop_first() =~= pl2);
    assert(pl2.drop_first() =~= pl3);
    assert(pl3.drop_first() =~= pl4);
    assert(pl4.drop_first() =~= pl5);
    assert(pl5.drop_first() =~= pl6);
    assert(pl6.drop_first() =~= pl7);
    assert(pl7.drop_first() =~= pl8);
    assert(pl8.drop_first() =~= pl9);
    assert(pl9.drop_first() =~= pl10);
    let t0 = Seq::<Seq<u8>>::empty();
    assert(parse_plan(toks, pl0, 0, t0, 8) == parse_plan(toks, pl1, 1, t0, 8));
    let t1 = seq![toks[1]];
    assert(t0.push(toks[1]) =~= t1);
    assert(parse_plan(toks, pl1, 1, t0, 8) == parse_plan(toks, pl2, 2, t1, 8));
    let t2 = seq![toks[1], toks[2]];
    assert(t1.push(toks[2]) =~= t2);
    assert(parse_plan(toks, pl2, 2, t1, 8) == parse_plan(toks, pl3, 3, t2, 8));
    let t3 = seq![toks[1], toks[2], toks[3]];
    assert(t2.push(toks[3]) =~= t3);
    assert(parse_plan(toks, pl3, 3, t2, 8) == parse_plan(toks, pl4, 4, t3, 8));
    let t4 = seq![toks[1], toks[2], toks[3], toks[4]];
    assert(t3.push(toks[4]) =~= t4);
    assert(parse_plan(toks, pl4, 4, t3, 8) == parse_plan(toks, pl5, 5, t4, 8));
    let t5 = seq![toks[1], toks[2], toks[3], toks[4], toks[5]];
    assert(t4.push(toks[5]) =~= t5);
    assert(parse_plan(toks, pl5, 5, t4, 8) == parse_plan(toks, pl6, 6, t5, 8));
    let t6 = seq![toks[1], toks[2], toks[3], toks[4], toks[5], toks[6]];
    assert(t5.push(toks[6]) =~= t6);
    assert(parse_plan(toks, pl6, 6, t5, 8) == parse_plan(toks, pl7, 7, t6, 8));
    assert(parse_plan(toks, pl7, 7, t6, 8) == parse_plan(toks, pl8, 8, t6, 8));
    let t7 = seq![toks[1], toks[2], toks[3], toks[4], toks[5], toks[6], toks[8]];
    assert(t6.push(toks[8]) =~= t7);
    assert(parse_plan(toks, pl8, 8, t6, 8) == parse_plan(toks, pl9, 9, t7, 8));
    let t8 = seq![toks[1], toks[2], toks[3], toks[4], toks[5], toks[6], toks[8], toks[9]];
    assert(t7.push(toks[9]) =~= t8);
    assert(parse_plan(toks, pl9, 9, t7, 8) == parse_plan(toks, pl10, 10, t8, 8));
    assert(parse_plan(toks, pl10, 10, t8, 8) == Ok::<Seq<Seq<u8>>, ErrorView>(t8));
}

/// Running the template over the hyphenated rendering's words: nothing is
/// skipped.
#[verifier::rlimit(30)]
proof fn lemma_parse_hyphen(toks: Seq<Seq<u8>>)
    requires
        toks.len() == 8,
        !skip_set_match(SkipSet::Articles, toks[0]),
        !skip_set_match(SkipSet::Articles, toks[6]),
    ensures
        parse_plan(toks, plan_spec(), 0, seq![], 8) == Ok::<Seq<Seq<u8>>, ErrorView>(
            seq![toks[0], toks[1], toks[2], toks[3], toks[4], toks[5], toks[6], toks[7]],
        ),
{
    assert(plan_spec() =~= seq![Step::Skip(SkipSet::Articles), Step::Take, Step::Take, Step::Take, Step::Take, Step::Take, Step::Take, Step::Skip(SkipSet::Articles), Step::Take, Step::Take]);
    let pl0 = plan_spec();
    let pl1 = seq![Step::Take, Step::Take, Step::Take, Step::Take, Step::Take, Step::Take, Step::Skip(SkipSet::Articles), Step::Take, Step::Take];
    let pl2 = seq![Step::Take, Step::Take, Step::Take, Step::Take, Step::Take, Step::Skip(SkipSet::Articles), Step::Take, Step::Take];
    let pl3 = seq![Step::Take, Step::Take, Step::Take, Step::Take, Step::Skip(SkipSet::Articles), Step::Take, Step::Take];
    let pl4 = seq![Step::Take, Step::Take, Step::Take, Step::Skip(SkipSet::Articles), Step::Take, Step::Take];
    let pl5 = seq![Step::Take, Step::Take, Step::Skip(SkipSet::Articles), Step::Take, Step::Take];
    let pl6 = seq![Step::Take, Step::Skip(SkipSet::Articles), Step::Take, Step::Take];
    let pl7 = seq![Step::Skip(SkipSet::Articles), Step::Take, Step::Take];
    let pl8 = seq![Step::Take, Step::Take];
    let pl9 = seq![Step::Take];
    let pl10 = Seq::<Step>::empty();
    assert(pl0.drop_first() =~= pl1);
    assert(pl1.drop_first() =~= pl2);
    assert(pl2.drop_first() =~= pl3);
    assert(pl3.drop_first() =~= pl4);
    assert(pl4.drop_first() =~= pl5);
    assert(pl5.drop_first() =~= pl6);
    assert(pl6.drop_first() =~= pl7);
    assert(pl7.drop_first() =~= pl8);
    assert(pl8.drop_first() =~= pl9);
    assert(pl9.drop_first() =~= pl10);
    let t0 = Seq::<Seq<u8>>::empty();
    assert(parse_plan(toks, pl0, 0, t0, 8) == parse_plan(toks, pl1, 0, t0, 8));
    let t1 = seq![toks[0]];
    assert(t0.push(toks[0]) =~= t1);
    assert(parse_plan(toks, pl1, 0, t0, 8) == parse_plan(toks, pl2, 1, t1, 8));
    let t2 = seq![toks[0], toks[1]];
    assert(t1.push(toks[1]) =~= t2);
    assert(parse_plan(toks, pl2, 1, t1, 8) == parse_plan(toks, pl3, 2, t2, 8));
    let t3 = seq![toks[0], toks[1], toks[2]];
    assert(t2.push(toks[2]) =~= t3);
    assert(parse_plan(toks, pl3, 2, t2, 8) == parse_plan(toks, pl4, 3, t3, 8));
    let t4 = seq![toks[0], toks[1], toks[2], toks[3]];
    assert(t3.push(toks[3]) =~= t4);
    assert(parse_plan(toks, pl4, 3, t3, 8) == parse_plan(toks, pl5, 4, t4, 8));
    let t5 = seq![toks[0], toks[1], toks[2], toks[3], toks[4]];
    assert(t4.push(toks[4]) =~= t5);
    assert(parse_plan(toks, pl5, 4, t4, 8) == parse_plan(toks, pl6, 5, t5, 8));
    let t6 = seq![toks[0], toks[1], toks[2], toks[3], toks[4], toks[5]];
    assert(t5.push(toks[5]) =~= t6);
    assert(parse_plan(toks, pl6, 5, t5, 8) == parse_plan(toks, pl7, 6, t6, 8));
    assert(parse_plan(toks, pl7, 6, t6, 8) == parse_plan(toks, pl8, 6, t6, 8));
    let t7 = seq![toks[0], toks[1], toks[2], toks[3], toks[4], toks[5], toks[6]];
    assert(t6.push(toks[6]) =~= t7);
    assert(parse_plan(toks, pl8, 6, t6, 8) == parse_plan(toks, pl9, 7, t7, 8));
    let t8 = seq![toks[0], toks[1], toks[2], toks[3], toks[4], toks[5], toks[6], toks[7]];
    assert(t7.push(toks[7]) =~= t8);
    assert(parse_plan(toks, pl9, 7, t7, 8) == parse_plan(toks, pl10, 8, t8, 8));
    assert(parse_plan(toks, pl10, 8, t8, 8) == Ok::<Seq<Seq<u8>>, ErrorView>(t8));
}

/// Round trip: decoding either rendering of an encoded identifier yields
/// that identifier again, for every 64-bit value.
#[verifier::rlimit(60)]
pub proof fn lemma_round_trip(lex: Lexicon, p: Phrase, n: u64)
    requires
        lex.wf(),
        p.wf(),
        p.encodes(lex, n),
    ensures
        decode_spec(
            lex,
            natural_bytes(
                ascii_seq(p.adjective1@),
                ascii_seq(p.adjective2@),
                ascii_seq(p.noun1@),
                ascii_seq(p.verb@),
                ascii_seq(p.adverb@),
                ascii_seq(p.preposition@),
                ascii_seq(p.adjective3@),
                ascii_seq(p.noun2@),
            ),
        ) == Ok::<u64, ErrorView>(n),
        decode_spec(
            lex,
            hyphen_bytes(
                ascii_seq(p.adjective1@),
                ascii_seq(p.adjective2@),
                ascii_seq(p.noun1@),
                ascii_seq(p.verb@),
                ascii_seq(p.adverb@),
                ascii_seq(p.preposition@),
                ascii_seq(p.adjective3@),
                ascii_seq(p.noun2@),
            ),
        ) == Ok::<u64, ErrorView>(n),
{
    lex.adjective.lemma_wf_len();
    lex.noun.lemma_wf_len();
    lex.verb_plural.lemma_wf_len();
    lex.adverb.lemma_wf_len();
    lex.preposition.lemma_wf_len();
    vstd::arithmetic::power2::lemma2_to64();
    lemma_pow_256();
    lemma_pow_512();
    let a1 = ascii_seq(p.adjective1@);
    let a2 = ascii_seq(p.adjective2@);
    let n1 = ascii_seq(p.noun1@);
    let v = ascii_seq(p.verb@);
    let dd = ascii_seq(p.adverb@);
    let pr = ascii_seq(p.preposition@);
    let a3 = ascii_seq(p.adjective3@);
    let n2 = ascii_seq(p.noun2@);
    crate::text::lemma_word_chars_bytes(p.adjective1@);
    crate::text::lemma_word_chars_bytes(p.adjective2@);
    crate::text::lemma_word_chars_bytes(p.noun1@);
    crate::text::lemma_word_chars_bytes(p.verb@);
    crate::text::lemma_word_chars_bytes(p.adverb@);
    crate::text::lemma_word_chars_bytes(p.preposition@);
    crate::text::lemma_word_chars_bytes(p.adjective3@);
    crate::text::lemma_word_chars_bytes(p.noun2@);
    lemma_natural_tokens(a1, a2, n1, v, dd, pr, a3, n2);
    lemma_hyphen_tokens(a1, a2, n1, v, dd, pr, a3, n2);
    assert(skip_set_match(SkipSet::Articles, word_the())) by {
        assert(crate::ascii::low_seq(word_the()) =~= crate::ascii::low_seq(filler_the()));
    }
    assert(skip_set_match(SkipSet::Articles, filler_the()));
    let toks_n = seq![word_the(), a1, a2, n1, v, dd, pr, filler_the(), a3, n2];
    let toks_h = seq![a1, a2, n1, v, dd, pr, a3, n2];
    lemma_parse_natural(toks_n);
    lemma_parse_hyphen(toks_h);
    let out = seq![a1, a2, n1, v, dd, pr, a3, n2];
    assert(seq![toks_n[1], toks_n[2], toks_n[3], toks_n[4], toks_n[5], toks_n[6], toks_n[8], toks_n[9]]
        =~= out);
    assert(seq![toks_h[0], toks_h[1], toks_h[2], toks_h[3], toks_h[4], toks_h[5], toks_h[6], toks_h[7]]
        =~= out);
    // the reverse lookups reassemble the identifier
    let ni = n as int;
    let pi = (ni / 0x2000_0000_0000_0000) % 512;
    let di = (ni / 0x10_0000_0000_0000) % 512;
    let vi = (ni / 0x400_0000_0000) % 1024;
    crate::mapper::lemma_dict_find_at(lex.preposition@, pr, pi);
    crate::mapper::lemma_dict_find_at(lex.adverb@, dd, di);
    crate::mapper::lemma_dict_find_at(lex.verb_plural@, v, vi);
    assert(pi == ni / 0x2000_0000_0000_0000) by {
        assert(ni / 0x2000_0000_0000_0000 < 8);
    }
    crate::mapper::lemma_stage(ni, 0x10_0000_0000_0000, 512);
    crate::mapper::lemma_stage(ni, 0x400_0000_0000, 1024);
    let acc3 = (pi * 512 + di) * 1024 + vi;
    assert(acc3 == ni / 0x400_0000_0000);
    // nouns: two no-repeat draws of 9 bits each
    let nbits = ni / 0x100_0000;
    let nws = seq![n1, n2];
    assert(eq_ic(nws[0], lex.noun@[norep_index(512, 0, nbits)]));
    assert(eq_ic(nws[1], lex.noun@[norep_index(512, 1, nbits)]));
    crate::mapper::lemma_decode_norep_inverse(lex.noun@, 512, 2, nbits, acc3, nws);
    assert(nws.reverse() =~= seq![n2, n1]);
    assert(seq![out[7], out[2]] =~= seq![n2, n1]);
    let acc4 = acc3 * 0x4_0000 + nbits % 0x4_0000;
    assert(acc4 == ni / 0x100_0000) by {
        crate::mapper::lemma_stage(ni, 0x100_0000, 0x4_0000);
        vstd::arithmetic::div_mod::lemma_div_denominator(ni, 0x100_0000, 0x4_0000);
    }
    // adjectives: three no-repeat draws of 8 bits each
    let aws = seq![a1, a2, a3];
    assert(eq_ic(aws[0], lex.adjective@[norep_index(256, 0, ni)]));
    assert(eq_ic(aws[1], lex.adjective@[norep_index(256, 1, ni)]));
    assert(eq_ic(aws[2], lex.adjective@[norep_index(256, 2, ni)]));
    crate::mapper::lemma_decode_norep_inverse(lex.adjective@, 256, 3, ni, acc4, aws);
    assert(aws.reverse() =~= seq![a3, a2, a1]);
    assert(seq![out[6], out[1], out[0]] =~= seq![a3, a2, a1]);
    let acc5 = acc4 * 0x100_0000 + ni % 0x100_0000;
    assert(acc5 == ni) by {
        crate::mapper::lemma_stage(ni, 1, 0x100_0000);
    }
}

} // verus!
