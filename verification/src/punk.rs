//! The punky 64-bit scheme: four `<verb> <pronoun>` clauses and four
//! adjectives.
//!
//! The verbs come from a no-repeat draw over the singular verbs (6 bits a
//! word), the pronouns from repeatable draws over the four object pronouns
//! (2 bits each), the adjectives from a no-repeat draw (8 bits a word):
//! exactly 64 bits. Decoding feeds the words back in the exact reverse order.

use vstd::prelude::*;
use vstd::arithmetic::power::pow;
use vstd::string::StringSliceAdditionalSpecFns;

use crate::ascii::{ascii_seq, eq_ic, word_chars_ok};
use crate::eytzinger::words_bytes;
use crate::lexicon::Lexicon;
use crate::mapper::{
    decode_norep_spec, decode_words_spec_rec, dict_find, norep_exp, norep_index, plain_index,
    string_bytes,
};
use crate::schemes::{
    parse_plan, parse_tokens, take_count, Error, ErrorView, Hyphenated, SkipSet, Step,
};
use crate::simple_phrase::{dash, sp};
use crate::text::{
    ascii_to_string, cap_bytes, lemma_cap_bytes, lemma_tokenize_separated, push_cap_word,
    push_str_bytes, push_word_bytes, seps_then_words, string_to_words, tokenize, word_bytes_ok,
};

verus! {

/// A 64-bit identifier as four verb-pronoun clauses and four adjectives.
pub struct Punk {
    pub verbs: Vec<String>,
    pub pronouns: Vec<String>,
    pub adjectives: Vec<String>,
}

impl Punk {
    /// Four words of each class, each a word.
    pub open spec fn wf(&self) -> bool {
        &&& self.verbs@.len() == 4
        &&& self.pronouns@.len() == 4
        &&& self.adjectives@.len() == 4
        &&& forall|k: int| 0 <= k < 4 ==> word_chars_ok(#[trigger] self.verbs@[k]@)
        &&& forall|k: int| 0 <= k < 4 ==> word_chars_ok(#[trigger] self.pronouns@[k]@)
        &&& forall|k: int| 0 <= k < 4 ==> word_chars_ok(#[trigger] self.adjectives@[k]@)
    }

    /// The phrase encodes `n` over the lexicon.
    pub open spec fn encodes(&self, lex: Lexicon, n: u64) -> bool {
        &&& forall|k: int|
            0 <= k < 4 ==> ascii_seq(#[trigger] self.verbs@[k]@) == lex.verb_singular@[norep_index(
                64,
                k,
                n as int,
            )]
        &&& forall|k: int|
            0 <= k < 4 ==> ascii_seq(#[trigger] self.pronouns@[k]@)
                == lex.object_pronoun@[plain_index(4, k, (n as int) / 0x100_0000)]
        &&& forall|k: int|
            0 <= k < 4 ==> ascii_seq(#[trigger] self.adjectives@[k]@)
                == lex.adjective@[norep_index(256, k, (n as int) / 0x1_0000_0000)]
    }

    /// Encodes a 64-bit identifier as a punky phrase.
    pub fn encode(lex: &Lexicon, bits: u64) -> (r: Punk)
        requires
            lex.wf(),
        ensures
            r.wf(),
            r.encodes(*lex, bits),
    {
        encode(lex, bits)
    }

    /// Wraps the phrase for hyphenated rendering.
    pub fn hyphenated(self) -> (r: Hyphenated<Punk>)
        ensures
            r.0 == self,
    {
        Hyphenated(self)
    }

    /// The natural rendering: every word capitalized, clauses punctuated.
    pub fn text(&self) -> (r: String)
        requires
            self.wf(),
        ensures
            ascii_seq(r@) == natural_bytes(
                cap_bytes(ascii_seq(self.verbs@[0]@)),
                cap_bytes(ascii_seq(self.pronouns@[0]@)),
                cap_bytes(ascii_seq(self.verbs@[1]@)),
                cap_bytes(ascii_seq(self.pronouns@[1]@)),
                cap_bytes(ascii_seq(self.verbs@[2]@)),
                cap_bytes(ascii_seq(self.pronouns@[2]@)),
                cap_bytes(ascii_seq(self.verbs@[3]@)),
                cap_bytes(ascii_seq(self.pronouns@[3]@)),
                cap_bytes(ascii_seq(self.adjectives@[0]@)),
                cap_bytes(ascii_seq(self.adjectives@[1]@)),
                cap_bytes(ascii_seq(self.adjectives@[2]@)),
                cap_bytes(ascii_seq(self.adjectives@[3]@)),
            ),
    {
        let mut buf: Vec<u8> = Vec::new();
        proof {
            reveal_strlit(" ");
            reveal_strlit(", ");
            reveal_strlit("\n");
        }
        push_cap_word(&mut buf, &self.verbs[0]);
        push_str_bytes(&mut buf, " ");
        push_cap_word(&mut buf, &self.pronouns[0]);
        push_str_bytes(&mut buf, ", ");
        push_cap_word(&mut buf, &self.verbs[1]);
        push_str_bytes(&mut buf, " ");
        push_cap_word(&mut buf, &self.pronouns[1]);
        push_str_bytes(&mut buf, "\n");
        push_cap_word(&mut buf, &self.verbs[2]);
        push_str_bytes(&mut buf, " ");
        push_cap_word(&mut buf, &self.pronouns[2]);
        push_str_bytes(&mut buf, ", ");
        push_cap_word(&mut buf, &self.verbs[3]);
        push_str_bytes(&mut buf, " ");
        push_cap_word(&mut buf, &self.pronouns[3]);
        push_str_bytes(&mut buf, "\n");
        push_cap_word(&mut buf, &self.adjectives[0]);
        push_str_bytes(&mut buf, ", ");
        push_cap_word(&mut buf, &self.adjectives[1]);
        push_str_bytes(&mut buf, "\n");
        push_cap_word(&mut buf, &self.adjectives[2]);
        push_str_bytes(&mut buf, ", ");
        push_cap_word(&mut buf, &self.adjectives[3]);
        let ghost bufg = buf@;
        let r = ascii_to_string(buf);
        proof {
            assert(ascii_seq(" "@) =~= sp());
            assert(ascii_seq(", "@) =~= csp());
            assert(ascii_seq("\n"@) =~= nl());
            assert(ascii_seq(r@) =~= bufg);
            assert(bufg =~= natural_bytes(
                cap_bytes(ascii_seq(self.verbs@[0]@)),
                cap_bytes(ascii_seq(self.pronouns@[0]@)),
                cap_bytes(ascii_seq(self.verbs@[1]@)),
                cap_bytes(ascii_seq(self.pronouns@[1]@)),
                cap_bytes(ascii_seq(self.verbs@[2]@)),
                cap_bytes(ascii_seq(self.pronouns@[2]@)),
                cap_bytes(ascii_seq(self.verbs@[3]@)),
                cap_bytes(ascii_seq(self.pronouns@[3]@)),
                cap_bytes(ascii_seq(self.adjectives@[0]@)),
                cap_bytes(ascii_seq(self.adjectives@[1]@)),
                cap_bytes(ascii_seq(self.adjectives@[2]@)),
                cap_bytes(ascii_seq(self.adjectives@[3]@)),
            ));
        }
        r
    }
}

impl Hyphenated<Punk> {
    /// The compact rendering: the twelve words joined by hyphens.
    pub fn text(&self) -> (r: String)
        requires
            self.0.wf(),
        ensures
            ascii_seq(r@) == hyphen_bytes(
                ascii_seq(self.0.verbs@[0]@),
                ascii_seq(self.0.pronouns@[0]@),
                ascii_seq(self.0.verbs@[1]@),
                ascii_seq(self.0.pronouns@[1]@),
                ascii_seq(self.0.verbs@[2]@),
                ascii_seq(self.0.pronouns@[2]@),
                ascii_seq(self.0.verbs@[3]@),
                ascii_seq(self.0.pronouns@[3]@),
                ascii_seq(self.0.adjectives@[0]@),
                ascii_seq(self.0.adjectives@[1]@),
                ascii_seq(self.0.adjectives@[2]@),
                ascii_seq(self.0.adjectives@[3]@),
            ),
    {
        let mut buf: Vec<u8> = Vec::new();
        proof {
            reveal_strlit("-");
        }
        push_word_bytes(&mut buf, &self.0.verbs[0]);
        push_str_bytes(&mut buf, "-");
        push_word_bytes(&mut buf, &self.0.pronouns[0]);
        push_str_bytes(&mut buf, "-");
        push_word_bytes(&mut buf, &self.0.verbs[1]);
        push_str_bytes(&mut buf, "-");
        push_word_bytes(&mut buf, &self.0.pronouns[1]);
        push_str_bytes(&mut buf, "-");
        push_word_bytes(&mut buf, &self.0.verbs[2]);
        push_str_bytes(&mut buf, "-");
        push_word_bytes(&mut buf, &self.0.pronouns[2]);
        push_str_bytes(&mut buf, "-");
        push_word_bytes(&mut buf, &self.0.verbs[3]);
        push_str_bytes(&mut buf, "-");
        push_word_bytes(&mut buf, &self.0.pronouns[3]);
        push_str_bytes(&mut buf, "-");
        push_word_bytes(&mut buf, &self.0.adjectives[0]);
        push_str_bytes(&mut buf, "-");
        push_word_bytes(&mut buf, &self.0.adjectives[1]);
        push_str_bytes(&mut buf, "-");
        push_word_bytes(&mut buf, &self.0.adjectives[2]);
        push_str_bytes(&mut buf, "-");
        push_word_bytes(&mut buf, &self.0.adjectives[3]);
        let ghost bufg = buf@;
        let r = ascii_to_string(buf);
        proof {
            assert(ascii_seq("-"@) =~= dash());
            assert(ascii_seq(r@) =~= bufg);
            assert(bufg =~= hyphen_bytes(
                ascii_seq(self.0.verbs@[0]@),
                ascii_seq(self.0.pronouns@[0]@),
                ascii_seq(self.0.verbs@[1]@),
                ascii_seq(self.0.pronouns@[1]@),
                ascii_seq(self.0.verbs@[2]@),
                ascii_seq(self.0.pronouns@[2]@),
                ascii_seq(self.0.verbs@[3]@),
                ascii_seq(self.0.pronouns@[3]@),
                ascii_seq(self.0.adjectives@[0]@),
                ascii_seq(self.0.adjectives@[1]@),
                ascii_seq(self.0.adjectives@[2]@),
                ascii_seq(self.0.adjectives@[3]@),
            ));
        }
        r
    }
}

/// A comma and a space.
pub open spec fn csp() -> Seq<u8> {
    seq![44u8, 32u8]
}

/// A line break.
pub open spec fn nl() -> Seq<u8> {
    seq![10u8]
}

/// The bytes of the natural rendering, over the already capitalized words.
pub open spec fn natural_bytes(cw0: Seq<u8>, cw1: Seq<u8>, cw2: Seq<u8>, cw3: Seq<u8>, cw4: Seq<u8>, cw5: Seq<u8>, cw6: Seq<u8>, cw7: Seq<u8>, cw8: Seq<u8>, cw9: Seq<u8>, cw10: Seq<u8>, cw11: Seq<u8>) -> Seq<u8> {
    cw0 + sp() + cw1 + csp() + cw2 + sp() + cw3 + nl() + cw4 + sp() + cw5 + csp() + cw6 + sp()
        + cw7 + nl() + cw8 + csp() + cw9 + nl() + cw10 + csp() + cw11
}

/// The bytes of the hyphenated rendering.
pub open spec fn hyphen_bytes(w0: Seq<u8>, w1: Seq<u8>, w2: Seq<u8>, w3: Seq<u8>, w4: Seq<u8>, w5: Seq<u8>, w6: Seq<u8>, w7: Seq<u8>, w8: Seq<u8>, w9: Seq<u8>, w10: Seq<u8>, w11: Seq<u8>) -> Seq<u8> {
    w0 + dash() + w1 + dash() + w2 + dash() + w3 + dash() + w4 + dash() + w5 + dash() + w6 + dash()
        + w7 + dash() + w8 + dash() + w9 + dash() + w10 + dash() + w11
}

/// The parsing template: exactly twelve content words, nothing skipped.
pub open spec fn plan_spec() -> Seq<Step> {
    seq![Step::Take, Step::Take, Step::Take, Step::Take, Step::Take, Step::Take, Step::Take, Step::Take, Step::Take, Step::Take, Step::Take, Step::Take]
}

/// The dictionary lookups and bit reassembly over parsed content words.
pub open spec fn decode_words_value(lex: Lexicon, ws: Seq<Seq<u8>>) -> Result<u64, ErrorView> {
    match decode_norep_spec(lex.adjective@, seq![ws[11], ws[10], ws[9], ws[8]], 0, 256) {
        Err(e) => Err(ErrorView::Unrecognized { word: seq![ws[11], ws[10], ws[9], ws[8]][e] }),
        Ok(acc1) => match decode_words_spec_rec(
            lex.object_pronoun@,
            seq![ws[7], ws[5], ws[3], ws[1]],
            acc1,
        ) {
            Err(e) => Err(ErrorView::Unrecognized { word: seq![ws[7], ws[5], ws[3], ws[1]][e] }),
            Ok(acc2) => match decode_norep_spec(
                lex.verb_singular@,
                seq![ws[6], ws[4], ws[2], ws[0]],
                acc2,
                64,
            ) {
                Err(e) => Err(
                    ErrorView::Unrecognized { word: seq![ws[6], ws[4], ws[2], ws[0]][e] },
                ),
                Ok(v) => Ok((v % 0x1_0000_0000_0000_0000) as u64),
            },
        },
    }
}

/// What decoding returns on any input text, over the lexicon.
pub open spec fn decode_spec(lex: Lexicon, bytes: Seq<u8>) -> Result<u64, ErrorView> {
    let toks = tokenize(bytes);
    match parse_plan(toks, plan_spec(), 0, seq![], 12) {
        Err(e) => Err(e),
        Ok(ws) => decode_words_value(lex, ws),
    }
}

/// Encodes a 64-bit identifier as a punky phrase.
pub fn encode(lex: &Lexicon, bits: u64) -> (r: Punk)
    requires
        lex.wf(),
    ensures
        r.wf(),
        r.encodes(*lex, bits),
{
    proof {
        lex.verb_singular.lemma_wf_len();
        lex.object_pronoun.lemma_wf_len();
        lex.adjective.lemma_wf_len();
        vstd::arithmetic::power2::lemma2_to64();
        lemma_norep_small();
        lemma_pow_small();
    }
    let (verbs, rest) = lex.verb_singular.encode_words_norepeat(4, bits as u128);
    proof {
        assert(rest == (bits as int) / 0x100_0000);
    }
    let (pronouns, rest) = lex.object_pronoun.encode_words(4, rest);
    proof {
        vstd::arithmetic::div_mod::lemma_div_denominator(bits as int, 0x100_0000, 256);
        assert(rest == (bits as int) / 0x1_0000_0000);
    }
    let (adjectives, rest) = lex.adjective.encode_words_norepeat(4, rest);
    proof {
        assert((bits as int) / 0x1_0000_0000 < 0x1_0000_0000);
        vstd::arithmetic::div_mod::lemma_basic_div((bits as int) / 0x1_0000_0000, 0x1_0000_0000);
        assert(rest == 0);
    }
    Punk { verbs, pronouns, adjectives }
}

/// The no-repeat exponents of the draws.
proof fn lemma_norep_small()
    ensures
        norep_exp(1) == 0,
        norep_exp(2) == 1,
        norep_exp(4) == 2,
{
    assert(norep_exp(1) == 0);
    assert(norep_exp(2) == 1 + norep_exp(1));
    assert(norep_exp(4) == 1 + norep_exp(2));
}

/// Powers of the block sizes in play.
proof fn lemma_pow_small()
    ensures
        pow(64, 4) == 0x100_0000,
        pow(4, 4) == 256,
        pow(256, 4) == 0x1_0000_0000,
{
    vstd::arithmetic::power::lemma_pow0(64);
    vstd::arithmetic::power::lemma_pow1(64);
    vstd::arithmetic::power::lemma_pow_adds(64, 1, 1);
    vstd::arithmetic::power::lemma_pow_adds(64, 2, 1);
    vstd::arithmetic::power::lemma_pow_adds(64, 3, 1);
    vstd::arithmetic::power::lemma_pow0(4);
    vstd::arithmetic::power::lemma_pow1(4);
    vstd::arithmetic::power::lemma_pow_adds(4, 1, 1);
    vstd::arithmetic::power::lemma_pow_adds(4, 2, 1);
    vstd::arithmetic::power::lemma_pow_adds(4, 3, 1);
    vstd::arithmetic::power::lemma_pow0(256);
    vstd::arithmetic::power::lemma_pow1(256);
    vstd::arithmetic::power::lemma_pow_adds(256, 1, 1);
    vstd::arithmetic::power::lemma_pow_adds(256, 2, 1);
    vstd::arithmetic::power::lemma_pow_adds(256, 3, 1);
}

/// Decodes free text against the punky template: the exact reverse of
/// `encode`.
pub fn decode(lex: &Lexicon, s: &str) -> (r: Result<u64, Error>)
    requires
        lex.wf(),
    ensures
        match r {
            Ok(n) => decode_spec(*lex, s.spec_bytes()) == Ok::<u64, ErrorView>(n),
            Err(e) => decode_spec(*lex, s.spec_bytes()) == Err::<u64, ErrorView>(e@) && e.wf(),
        },
{
    let toks = string_to_words(s);
    let mut plan: Vec<Step> = Vec::new();
    let mut k: usize = 0;
    while k < 12
        invariant
            k <= 12,
            plan@.len() == k,
            forall|i: int| 0 <= i < plan@.len() ==> plan@[i] == Step::Take,
        decreases 12 - k,
    {
        plan.push(Step::Take);
        k = k + 1;
    }
    proof {
        assert(plan@ =~= plan_spec());
    }
    let ws = match parse_tokens(&toks, &plan, 12) {
        Err(e) => {
            return Err(e);
        },
        Ok(ws) => ws,
    };
    proof {
        lex.verb_singular.lemma_wf_len();
        lex.object_pronoun.lemma_wf_len();
        lex.adjective.lemma_wf_len();
        vstd::arithmetic::power2::lemma2_to64();
        lemma_norep_small();
        lemma_pow_small();
        crate::schemes::lemma_parse_plan_len(tokenize(s.spec_bytes()), plan_spec(), 0, seq![], 12);
        lemma_plan_take_count();
        assert(ws@.len() == 12);
        assert forall|i: int| 0 <= i < ws@.len() implies string_bytes(#[trigger] ws@[i]@)
            == words_bytes(ws@)[i] by {
            let w = ws@[i]@;
            assert forall|kk: int| 0 <= kk < w.len() implies '\0' <= #[trigger] w[kk]
                <= '\u{7f}' by {
                assert(crate::ascii::char_is_alpha(w[kk]));
            }
            vstd::utf8::is_ascii_chars_encode_utf8(w);
            assert(string_bytes(w) =~= ascii_seq(w));
        }
    }
    let ghost wsb = words_bytes(ws@);
    let mut adjs_r: Vec<String> = Vec::new();
    adjs_r.push(ws[11].clone());
    adjs_r.push(ws[10].clone());
    adjs_r.push(ws[9].clone());
    adjs_r.push(ws[8].clone());
    proof {
        assert(crate::mapper::strs_bytes(adjs_r@) =~= seq![wsb[11], wsb[10], wsb[9], wsb[8]]);
        vstd::arithmetic::power2::lemma_pow2_pos(96);
    }
    let acc1 = match lex.adjective.decode_words_norepeat(&adjs_r, 0) {
        Err(i) => {
            proof {
                crate::mapper::lemma_decode_norep_err(
                    lex.adjective@,
                    seq![wsb[11], wsb[10], wsb[9], wsb[8]],
                    0,
                    256,
                );
            }
            let which: usize = 11 - i;
            return Err(unrecognized(&ws, which));
        },
        Ok(acc) => acc,
    };
    proof {
        crate::mapper::lemma_decode_norep_bound(
            lex.adjective@,
            seq![wsb[11], wsb[10], wsb[9], wsb[8]],
            0,
            256,
        );
        assert(decode_norep_spec(lex.adjective@, seq![wsb[11], wsb[10], wsb[9], wsb[8]], 0, 256)
            == Ok::<int, int>(acc1 as int));
        assert((acc1 as int) < 0x1_0000_0000);
        vstd::arithmetic::power2::lemma_pow2_strictly_increases(32, 120);
    }
    let mut pros_r: Vec<String> = Vec::new();
    pros_r.push(ws[7].clone());
    pros_r.push(ws[5].clone());
    pros_r.push(ws[3].clone());
    pros_r.push(ws[1].clone());
    proof {
        assert(crate::mapper::strs_bytes(pros_r@) =~= seq![wsb[7], wsb[5], wsb[3], wsb[1]]);
    }
    let acc2 = match lex.object_pronoun.decode_words(&pros_r, acc1) {
        Err(i) => {
            proof {
                crate::mapper::lemma_decode_words_err(
                    lex.object_pronoun@,
                    seq![wsb[7], wsb[5], wsb[3], wsb[1]],
                    acc1 as int,
                );
            }
            let which: usize = 7 - 2 * i;
            return Err(unrecognized(&ws, which));
        },
        Ok(acc) => acc,
    };
    proof {
        crate::mapper::lemma_decode_words_bound(
            lex.object_pronoun@,
            seq![wsb[7], wsb[5], wsb[3], wsb[1]],
            acc1 as int,
        );
        assert(decode_words_spec_rec(
            lex.object_pronoun@,
            seq![wsb[7], wsb[5], wsb[3], wsb[1]],
            acc1 as int,
        ) == Ok::<int, int>(acc2 as int));
        assert((acc2 as int) < 0x100_0000_0000);
        vstd::arithmetic::power2::lemma2_to64_rest();
        vstd::arithmetic::power2::lemma_pow2_strictly_increases(40, 104);
    }
    let mut verbs_r: Vec<String> = Vec::new();
    verbs_r.push(ws[6].clone());
    verbs_r.push(ws[4].clone());
    verbs_r.push(ws[2].clone());
    verbs_r.push(ws[0].clone());
    proof {
        assert(crate::mapper::strs_bytes(verbs_r@) =~= seq![wsb[6], wsb[4], wsb[2], wsb[0]]);
    }
    let acc3 = match lex.verb_singular.decode_words_norepeat(&verbs_r, acc2) {
        Err(i) => {
            proof {
                crate::mapper::lemma_decode_norep_err(
                    lex.verb_singular@,
                    seq![wsb[6], wsb[4], wsb[2], wsb[0]],
                    acc2 as int,
                    64,
                );
            }
            let which: usize = 6 - 2 * i;
            return Err(unrecognized(&ws, which));
        },
        Ok(acc) => acc,
    };
    let r = #[verifier::truncate] (acc3 as u64);
    proof {
        crate::mapper::lemma_decode_norep_bound(
            lex.verb_singular@,
            seq![wsb[6], wsb[4], wsb[2], wsb[0]],
            acc2 as int,
            64,
        );
        assert(decode_norep_spec(
            lex.verb_singular@,
            seq![wsb[6], wsb[4], wsb[2], wsb[0]],
            acc2 as int,
            64,
        ) == Ok::<int, int>(acc3 as int));
        assert(((acc3 as u64) as u128) == acc3 % 0x1_0000_0000_0000_0000u128) by (bit_vector);
        assert(r as int == (acc3 as int) % 0x1_0000_0000_0000_0000);
    }
    Ok(r)
}

/// The template reads twelve content words.
proof fn lemma_plan_take_count()
    ensures
        take_count(plan_spec()) == 12,
{
    let p0 = plan_spec();
    let q1 = seq![Step::Take, Step::Take, Step::Take, Step::Take, Step::Take, Step::Take, Step::Take, Step::Take, Step::Take, Step::Take, Step::Take];
    let q2 = seq![Step::Take, Step::Take, Step::Take, Step::Take, Step::Take, Step::Take, Step::Take, Step::Take, Step::Take, Step::Take];
    let q3 = seq![Step::Take, Step::Take, Step::Take, Step::Take, Step::Take, Step::Take, Step::Take, Step::Take, Step::Take];
    let q4 = seq![Step::Take, Step::Take, Step::Take, Step::Take, Step::Take, Step::Take, Step::Take, Step::Take];
    let q5 = seq![Step::Take, Step::Take, Step::Take, Step::Take, Step::Take, Step::Take, Step::Take];
    let q6 = seq![Step::Take, Step::Take, Step::Take, Step::Take, Step::Take, Step::Take];
    let q7 = seq![Step::Take, Step::Take, Step::Take, Step::Take, Step::Take];
    let q8 = seq![Step::Take, Step::Take, Step::Take, Step::Take];
    let q9 = seq![Step::Take, Step::Take, Step::Take];
    let q10 = seq![Step::Take, Step::Take];
    let q11 = seq![Step::Take];
    let q12 = Seq::<Step>::empty();
    assert(p0.drop_first() =~= q1);
    assert(q1.drop_first() =~= q2);
    assert(q2.drop_first() =~= q3);
    assert(q3.drop_first() =~= q4);
    assert(q4.drop_first() =~= q5);
    assert(q5.drop_first() =~= q6);
    assert(q6.drop_first() =~= q7);
    assert(q7.drop_first() =~= q8);
    assert(q8.drop_first() =~= q9);
    assert(q9.drop_first() =~= q10);
    assert(q10.drop_first() =~= q11);
    assert(q11.drop_first() =~= q12);
    assert(take_count(q12) == 0);
    assert(take_count(q11) == 1);
    assert(take_count(q10) == 2);
    assert(take_count(q9) == 3);
    assert(take_count(q8) == 4);
    assert(take_count(q7) == 5);
    assert(take_count(q6) == 6);
    assert(take_count(q5) == 7);
    assert(take_count(q4) == 8);
    assert(take_count(q3) == 9);
    assert(take_count(q2) == 10);
    assert(take_count(q1) == 11);
    assert(take_count(p0) == 12);
}

/// Reports a word missing from its dictionary.
fn unrecognized(ws: &Vec<String>, i: usize) -> (r: Error)
    requires
        i < ws@.len(),
        word_chars_ok(ws@[i as int]@),
    ensures
        r@ == (ErrorView::Unrecognized { word: words_bytes(ws@)[i as int] }),
        r.wf(),
{
    let w = ws[i].clone();
    proof {
        let s = w@;
        assert forall|k: int| 0 <= k < s.len() implies '\0' <= #[trigger] s[k] <= '\u{7f}' by {
            assert(crate::ascii::char_is_alpha(s[k]));
        }
        vstd::utf8::is_ascii_chars_encode_utf8(w@);
        assert(string_bytes(w@) =~= ascii_seq(w@));
    }
    Error::Unrecognized { word: w }
}

/// The words of the natural rendering: the twelve capitalized words.
#[verifier::rlimit(100)]
proof fn lemma_natural_tokens(cw0: Seq<u8>, cw1: Seq<u8>, cw2: Seq<u8>, cw3: Seq<u8>, cw4: Seq<u8>, cw5: Seq<u8>, cw6: Seq<u8>, cw7: Seq<u8>, cw8: Seq<u8>, cw9: Seq<u8>, cw10: Seq<u8>, cw11: Seq<u8>)
    requires
        word_bytes_ok(cw0),
        word_bytes_ok(cw1),
        word_bytes_ok(cw2),
        word_bytes_ok(cw3),
        word_bytes_ok(cw4),
        word_bytes_ok(cw5),
        word_bytes_ok(cw6),
        word_bytes_ok(cw7),
        word_bytes_ok(cw8),
        word_bytes_ok(cw9),
        word_bytes_ok(cw10),
        word_bytes_ok(cw11),
    ensures
        tokenize(natural_bytes(cw0, cw1, cw2, cw3, cw4, cw5, cw6, cw7, cw8, cw9, cw10, cw11)) == seq![cw0, cw1, cw2, cw3, cw4, cw5, cw6, cw7, cw8, cw9, cw10, cw11],
{
    let toks = seq![cw0, cw1, cw2, cw3, cw4, cw5, cw6, cw7, cw8, cw9, cw10, cw11];
    let seps = seq![Seq::<u8>::empty(), sp(), csp(), sp(), nl(), sp(), csp(), sp(), nl(), csp(), nl(), csp()];
    assert(seps_then_words(seq![csp()], seq![cw11]) =~= csp() + cw11 + (Seq::<u8>::empty())) by {
        assert(seq![csp()].drop_first() =~= Seq::<Seq<u8>>::empty());
        assert(seq![cw11].drop_first() =~= Seq::<Seq<u8>>::empty());
        assert(seps_then_words(Seq::<Seq<u8>>::empty(), Seq::<Seq<u8>>::empty()) == Seq::<u8>::empty());
    }
    assert(seps_then_words(seq![nl(), csp()], seq![cw10, cw11]) =~= nl() + cw10 + (csp() + cw11 + (Seq::<u8>::empty()))) by {
        assert(seq![nl(), csp()].drop_first() =~= seq![csp()]);
        assert(seq![cw10, cw11].drop_first() =~= seq![cw11]);
    }
    assert(seps_then_words(seq![csp(), nl(), csp()], seq![cw9, cw10, cw11]) =~= csp() + cw9 + (nl() + cw10 + (csp() + cw11 + (Seq::<u8>::empty())))) by {
        assert(seq![csp(), nl(), csp()].drop_first() =~= seq![nl(), csp()]);
        assert(seq![cw9, cw10, cw11].drop_first() =~= seq![cw10, cw11]);
    }
    assert(seps_then_words(seq![nl(), csp(), nl(), csp()], seq![cw8, cw9, cw10, cw11]) =~= nl() + cw8 + (csp() + cw9 + (nl() + cw10 + (csp() + cw11 + (Seq::<u8>::empty()))))) by {
        assert(seq![nl(), csp(), nl(), csp()].drop_first() =~= seq![csp(), nl(), csp()]);
        assert(seq![cw8, cw9, cw10, cw11].drop_first() =~= seq![cw9, cw10, cw11]);
    }
    assert(seps_then_words(seq![sp(), nl(), csp(), nl(), csp()], seq![cw7, cw8, cw9, cw10, cw11]) =~= sp() + cw7 + (nl() + cw8 + (csp() + cw9 + (nl() + cw10 + (csp() + cw11 + (Seq::<u8>::empty())))))) by {
        assert(seq![sp(), nl(), csp(), nl(), csp()].drop_first() =~= seq![nl(), csp(), nl(), csp()]);
        assert(seq![cw7, cw8, cw9, cw10, cw11].drop_first() =~= seq![cw8, cw9, cw10, cw11]);
    }
    assert(seps_then_words(seq![csp(), sp(), nl(), csp(), nl(), csp()], seq![cw6, cw7, cw8, cw9, cw10, cw11]) =~= csp() + cw6 + (sp() + cw7 + (nl() + cw8 + (csp() + cw9 + (nl() + cw10 + (csp() + cw11 + (Seq::<u8>::empty()))))))) by {
        assert(seq![csp(), sp(), nl(), csp(), nl(), csp()].drop_first() =~= seq![sp(), nl(), csp(), nl(), csp()]);
        assert(seq![cw6, cw7, cw8, cw9, cw10, cw11].drop_first() =~= seq![cw7, cw8, cw9, cw10, cw11]);
    }
    assert(seps_then_words(seq![sp(), csp(), sp(), nl(), csp(), nl(), csp()], seq![cw5, cw6, cw7, cw8, cw9, cw10, cw11]) =~= sp() + cw5 + (csp() + cw6 + (sp() + cw7 + (nl() + cw8 + (csp() + cw9 + (nl() + cw10 + (csp() + cw11 + (Seq::<u8>::empty())))))))) by {
        assert(seq![sp(), csp(), sp(), nl(), csp(), nl(), csp()].drop_first() =~= seq![csp(), sp(), nl(), csp(), nl(), csp()]);
        assert(seq![cw5, cw6, cw7, cw8, cw9, cw10, cw11].drop_first() =~= seq![cw6, cw7, cw8, cw9, cw10, cw11]);
    }
    assert(seps_then_words(seq![nl(), sp(), csp(), sp(), nl(), csp(), nl(), csp()], seq![cw4, cw5, cw6, cw7, cw8, cw9, cw10, cw11]) =~= nl() + cw4 + (sp() + cw5 + (csp() + cw6 + (sp() + cw7 + (nl() + cw8 + (csp() + cw9 + (nl() + cw10 + (csp() + cw11 + (Seq::<u8>::empty()))))))))) by {
        assert(seq![nl(), sp(), csp(), sp(), nl(), csp(), nl(), csp()].drop_first() =~= seq![sp(), csp(), sp(), nl(), csp(), nl(), csp()]);
        assert(seq![cw4, cw5, cw6, cw7, cw8, cw9, cw10, cw11].drop_first() =~= seq![cw5, cw6, cw7, cw8, cw9, cw10, cw11]);
    }
    assert(seps_then_words(seq![sp(), nl(), sp(), csp(), sp(), nl(), csp(), nl(), csp()], seq![cw3, cw4, cw5, cw6, cw7, cw8, cw9, cw10, cw11]) =~= sp() + cw3 + (nl() + cw4 + (sp() + cw5 + (csp() + cw6 + (sp() + cw7 + (nl() + cw8 + (csp() + cw9 + (nl() + cw10 + (csp() + cw11 + (Seq::<u8>::empty())))))))))) by {
        assert(seq![sp(), nl(), sp(), csp(), sp(), nl(), csp(), nl(), csp()].drop_first() =~= seq![nl(), sp(), csp(), sp(), nl(), csp(), nl(), csp()]);
        assert(seq![cw3, cw4, cw5, cw6, cw7, cw8, cw9, cw10, cw11].drop_first() =~= seq![cw4, cw5, cw6, cw7, cw8, cw9, cw10, cw11]);
    }
    assert(seps_then_words(seq![csp(), sp(), nl(), sp(), csp(), sp(), nl(), csp(), nl(), csp()], seq![cw2, cw3, cw4, cw5, cw6, cw7, cw8, cw9, cw10, cw11]) =~= csp() + cw2 + (sp() + cw3 + (nl() + cw4 + (sp() + cw5 + (csp() + cw6 + (sp() + cw7 + (nl() + cw8 + (csp() + cw9 + (nl() + cw10 + (csp() + cw11 + (Seq::<u8>::empty()))))))))))) by {
        assert(seq![csp(), sp(), nl(), sp(), csp(), sp(), nl(), csp(), nl(), csp()].drop_first() =~= seq![sp(), nl(), sp(), csp(), sp(), nl(), csp(), nl(), csp()]);
        assert(seq![cw2, cw3, cw4, cw5, cw6, cw7, cw8, cw9, cw10, cw11].drop_first() =~= seq![cw3, cw4, cw5, cw6, cw7, cw8, cw9, cw10, cw11]);
    }
    assert(seps_then_words(seq![sp(), csp(), sp(), nl(), sp(), csp(), sp(), nl(), csp(), nl(), csp()], seq![cw1, cw2, cw3, cw4, cw5, cw6, cw7, cw8, cw9, cw10, cw11]) =~= sp() + cw1 + (csp() + cw2 + (sp() + cw3 + (nl() + cw4 + (sp() + cw5 + (csp() + cw6 + (sp() + cw7 + (nl() + cw8 + (csp() + cw9 + (nl() + cw10 + (csp() + cw11 + (Seq::<u8>::empty())))))))))))) by {
        assert(seq![sp(), csp(), sp(), nl(), sp(), csp(), sp(), nl(), csp(), nl(), csp()].drop_first() =~= seq![csp(), sp(), nl(), sp(), csp(), sp(), nl(), csp(), nl(), csp()]);
        assert(seq![cw1, cw2, cw3, cw4, cw5, cw6, cw7, cw8, cw9, cw10, cw11].drop_first() =~= seq![cw2, cw3, cw4, cw5, cw6, cw7, cw8, cw9, cw10, cw11]);
    }
    assert(seps_then_words(seq![Seq::<u8>::empty(), sp(), csp(), sp(), nl(), sp(), csp(), sp(), nl(), csp(), nl(), csp()], seq![cw0, cw1, cw2, cw3, cw4, cw5, cw6, cw7, cw8, cw9, cw10, cw11]) =~= Seq::<u8>::empty() + cw0 + (sp() + cw1 + (csp() + cw2 + (sp() + cw3 + (nl() + cw4 + (sp() + cw5 + (csp() + cw6 + (sp() + cw7 + (nl() + cw8 + (csp() + cw9 + (nl() + cw10 + (csp() + cw11 + (Seq::<u8>::empty()))))))))))))) by {
        assert(seq![Seq::<u8>::empty(), sp(), csp(), sp(), nl(), sp(), csp(), sp(), nl(), csp(), nl(), csp()].drop_first() =~= seq![sp(), csp(), sp(), nl(), sp(), csp(), sp(), nl(), csp(), nl(), csp()]);
        assert(seq![cw0, cw1, cw2, cw3, cw4, cw5, cw6, cw7, cw8, cw9, cw10, cw11].drop_first() =~= seq![cw1, cw2, cw3, cw4, cw5, cw6, cw7, cw8, cw9, cw10, cw11]);
    }
    assert((Seq::<u8>::empty() + cw0 + (sp() + cw1 + (csp() + cw2 + (sp() + cw3 + (nl() + cw4 + (sp() + cw5 + (csp() + cw6 + (sp() + cw7 + (nl() + cw8 + (csp() + cw9 + (nl() + cw10 + (csp() + cw11 + (Seq::<u8>::empty()))))))))))))) =~= natural_bytes(cw0, cw1, cw2, cw3, cw4, cw5, cw6, cw7, cw8, cw9, cw10, cw11));
    assert(seps_then_words(seps, toks) =~= natural_bytes(cw0, cw1, cw2, cw3, cw4, cw5, cw6, cw7, cw8, cw9, cw10, cw11));
    lemma_tokenize_separated(seps, toks);
}

/// The words of the hyphenated rendering: the twelve words.
#[verifier::rlimit(100)]
proof fn lemma_hyphen_tokens(w0: Seq<u8>, w1: Seq<u8>, w2: Seq<u8>, w3: Seq<u8>, w4: Seq<u8>, w5: Seq<u8>, w6: Seq<u8>, w7: Seq<u8>, w8: Seq<u8>, w9: Seq<u8>, w10: Seq<u8>, w11: Seq<u8>)
    requires
        word_bytes_ok(w0),
        word_bytes_ok(w1),
        word_bytes_ok(w2),
        word_bytes_ok(w3),
        word_bytes_ok(w4),
        word_bytes_ok(w5),
        word_bytes_ok(w6),
        word_bytes_ok(w7),
        word_bytes_ok(w8),
        word_bytes_ok(w9),
        word_bytes_ok(w10),
        word_bytes_ok(w11),
    ensures
        tokenize(hyphen_bytes(w0, w1, w2, w3, w4, w5, w6, w7, w8, w9, w10, w11)) == seq![w0, w1, w2, w3, w4, w5, w6, w7, w8, w9, w10, w11],
{
    let toks = seq![w0, w1, w2, w3, w4, w5, w6, w7, w8, w9, w10, w11];
    let seps = seq![Seq::<u8>::empty(), dash(), dash(), dash(), dash(), dash(), dash(), dash(), dash(), dash(), dash(), dash()];
    assert(seps_then_words(seq![dash()], seq![w11]) =~= dash() + w11 + (Seq::<u8>::empty())) by {
        assert(seq![dash()].drop_first() =~= Seq::<Seq<u8>>::empty());
        assert(seq![w11].drop_first() =~= Seq::<Seq<u8>>::empty());
        assert(seps_then_words(Seq::<Seq<u8>>::empty(), Seq::<Seq<u8>>::empty()) == Seq::<u8>::empty());
    }
    assert(seps_then_words(seq![dash(), dash()], seq![w10, w11]) =~= dash() + w10 + (dash() + w11 + (Seq::<u8>::empty()))) by {
        assert(seq![dash(), dash()].drop_first() =~= seq![dash()]);
        assert(seq![w10, w11].drop_first() =~= seq![w11]);
    }
    assert(seps_then_words(seq![dash(), dash(), dash()], seq![w9, w10, w11]) =~= dash() + w9 + (dash() + w10 + (dash() + w11 + (Seq::<u8>::empty())))) by {
        assert(seq![dash(), dash(), dash()].drop_first() =~= seq![dash(), dash()]);
        assert(seq![w9, w10, w11].drop_first() =~= seq![w10, w11]);
    }
    assert(seps_then_words(seq![dash(), dash(), dash(), dash()], seq![w8, w9, w10, w11]) =~= dash() + w8 + (dash() + w9 + (dash() + w10 + (dash() + w11 + (Seq::<u8>::empty()))))) by {
        assert(seq![dash(), dash(), dash(), dash()].drop_first() =~= seq![dash(), dash(), dash()]);
        assert(seq![w8, w9, w10, w11].drop_first() =~= seq![w9, w10, w11]);
    }
    assert(seps_then_words(seq![dash(), dash(), dash(), dash(), dash()], seq![w7, w8, w9, w10, w11]) =~= dash() + w7 + (dash() + w8 + (dash() + w9 + (dash() + w10 + (dash() + w11 + (Seq::<u8>::empty())))))) by {
        assert(seq![dash(), dash(), dash(), dash(), dash()].drop_first() =~= seq![dash(), dash(), dash(), dash()]);
        assert(seq![w7, w8, w9, w10, w11].drop_first() =~= seq![w8, w9, w10, w11]);
    }
    assert(seps_then_words(seq![dash(), dash(), dash(), dash(), dash(), dash()], seq![w6, w7, w8, w9, w10, w11]) =~= dash() + w6 + (dash() + w7 + (dash() + w8 + (dash() + w9 + (dash() + w10 + (dash() + w11 + (Seq::<u8>::empty()))))))) by {
        assert(seq![dash(), dash(), dash(), dash(), dash(), dash()].drop_first() =~= seq![dash(), dash(), dash(), dash(), dash()]);
        assert(seq![w6, w7, w8, w9, w10, w11].drop_first() =~= seq![w7, w8, w9, w10, w11]);
    }
    assert(seps_then_words(seq![dash(), dash(), dash(), dash(), dash(), dash(), dash()], seq![w5, w6, w7, w8, w9, w10, w11]) =~= dash() + w5 + (dash() + w6 + (dash() + w7 + (dash() + w8 + (dash() + w9 + (dash() + w10 + (dash() + w11 + (Seq::<u8>::empty())))))))) by {
        assert(seq![dash(), dash(), dash(), dash(), dash(), dash(), dash()].drop_first() =~= seq![dash(), dash(), dash(), dash(), dash(), dash()]);
        assert(seq![w5, w6, w7, w8, w9, w10, w11].drop_first() =~= seq![w6, w7, w8, w9, w10, w11]);
    }
    assert(seps_then_words(seq![dash(), dash(), dash(), dash(), dash(), dash(), dash(), dash()], seq![w4, w5, w6, w7, w8, w9, w10, w11]) =~= dash() + w4 + (dash() + w5 + (dash() + w6 + (dash() + w7 + (dash() + w8 + (dash() + w9 + (dash() + w10 + (dash() + w11 + (Seq::<u8>::empty()))))))))) by {
        assert(seq![dash(), dash(), dash(), dash(), dash(), dash(), dash(), dash()].drop_first() =~= seq![dash(), dash(), dash(), dash(), dash(), dash(), dash()]);
        assert(seq![w4, w5, w6, w7, w8, w9, w10, w11].drop_first() =~= seq![w5, w6, w7, w8, w9, w10, w11]);
    }
    assert(seps_then_words(seq![dash(), dash(), dash(), dash(), dash(), dash(), dash(), dash(), dash()], seq![w3, w4, w5, w6, w7, w8, w9, w10, w11]) =~= dash() + w3 + (dash() + w4 + (dash() + w5 + (dash() + w6 + (dash() + w7 + (dash() + w8 + (dash() + w9 + (dash() + w10 + (dash() + w11 + (Seq::<u8>::empty())))))))))) by {
        assert(seq![dash(), dash(), dash(), dash(), dash(), dash(), dash(), dash(), dash()].drop_first() =~= seq![dash(), dash(), dash(), dash(), dash(), dash(), dash(), dash()]);
        assert(seq![w3, w4, w5, w6, w7, w8, w9, w10, w11].drop_first() =~= seq![w4, w5, w6, w7, w8, w9, w10, w11]);
    }
    assert(seps_then_words(seq![dash(), dash(), dash(), dash(), dash(), dash(), dash(), dash(), dash(), dash()], seq![w2, w3, w4, w5, w6, w7, w8, w9, w10, w11]) =~= dash() + w2 + (dash() + w3 + (dash() + w4 + (dash() + w5 + (dash() + w6 + (dash() + w7 + (dash() + w8 + (dash() + w9 + (dash() + w10 + (dash() + w11 + (Seq::<u8>::empty()))))))))))) by {
        assert(seq![dash(), dash(), dash(), dash(), dash(), dash(), dash(), dash(), dash(), dash()].drop_first() =~= seq![dash(), dash(), dash(), dash(), dash(), dash(), dash(), dash(), dash()]);
        assert(seq![w2, w3, w4, w5, w6, w7, w8, w9, w10, w11].drop_first() =~= seq![w3, w4, w5, w6, w7, w8, w9, w10, w11]);
    }
    assert(seps_then_words(seq![dash(), dash(), dash(), dash(), dash(), dash(), dash(), dash(), dash(), dash(), dash()], seq![w1, w2, w3, w4, w5, w6, w7, w8, w9, w10, w11]) =~= dash() + w1 + (dash() + w2 + (dash() + w3 + (dash() + w4 + (dash() + w5 + (dash() + w6 + (dash() + w7 + (dash() + w8 + (dash() + w9 + (dash() + w10 + (dash() + w11 + (Seq::<u8>::empty())))))))))))) by {
        assert(seq![dash(), dash(), dash(), dash(), dash(), dash(), dash(), dash(), dash(), dash(), dash()].drop_first() =~= seq![dash(), dash(), dash(), dash(), dash(), dash(), dash(), dash(), dash(), dash()]);
        assert(seq![w1, w2, w3, w4, w5, w6, w7, w8, w9, w10, w11].drop_first() =~= seq![w2, w3, w4, w5, w6, w7, w8, w9, w10, w11]);
    }
    assert(seps_then_words(seq![Seq::<u8>::empty(), dash(), dash(), dash(), dash(), dash(), dash(), dash(), dash(), dash(), dash(), dash()], seq![w0, w1, w2, w3, w4, w5, w6, w7, w8, w9, w10, w11]) =~= Seq::<u8>::empty() + w0 + (dash() + w1 + (dash() + w2 + (dash() + w3 + (dash() + w4 + (dash() + w5 + (dash() + w6 + (dash() + w7 + (dash() + w8 + (dash() + w9 + (dash() + w10 + (dash() + w11 + (Seq::<u8>::empty()))))))))))))) by {
        assert(seq![Seq::<u8>::empty(), dash(), dash(), dash(), dash(), dash(), dash(), dash(), dash(), dash(), dash(), dash()].drop_first() =~= seq![dash(), dash(), dash(), dash(), dash(), dash(), dash(), dash(), dash(), dash(), dash()]);
        assert(seq![w0, w1, w2, w3, w4, w5, w6, w7, w8, w9, w10, w11].drop_first() =~= seq![w1, w2, w3, w4, w5, w6, w7, w8, w9, w10, w11]);
    }
    assert((Seq::<u8>::empty() + w0 + (dash() + w1 + (dash() + w2 + (dash() + w3 + (dash() + w4 + (dash() + w5 + (dash() + w6 + (dash() + w7 + (dash() + w8 + (dash() + w9 + (dash() + w10 + (dash() + w11 + (Seq::<u8>::empty()))))))))))))) =~= hyphen_bytes(w0, w1, w2, w3, w4, w5, w6, w7, w8, w9, w10, w11));
    assert(seps_then_words(seps, toks) =~= hyphen_bytes(w0, w1, w2, w3, w4, w5, w6, w7, w8, w9, w10, w11));
    lemma_tokenize_separated(seps, toks);
}

/// Running the template over twelve words takes them all.
#[verifier::rlimit(100)]
proof fn lemma_parse_all(toks: Seq<Seq<u8>>)
    requires
        toks.len() == 12,
    ensures
        parse_plan(toks, plan_spec(), 0, seq![], 12) == Ok::<Seq<Seq<u8>>, ErrorView>(
            seq![toks[0], toks[1], toks[2], toks[3], toks[4], toks[5], toks[6], toks[7], toks[8], toks[9], toks[10], toks[11]],
        ),
{
    assert(plan_spec() =~= seq![Step::Take, Step::Take, Step::Take, Step::Take, Step::Take, Step::Take, Step::Take, Step::Take, Step::Take, Step::Take, Step::Take, Step::Take]);
    let pl0 = plan_spec();
    let pl1 = seq![Step::Take, Step::Take, Step::Take, Step::Take, Step::Take, Step::Take, Step::Take, Step::Take, Step::Take, Step::Take, Step::Take];
    let pl2 = seq![Step::Take, Step::Take, Step::Take, Step::Take, Step::Take, Step::Take, Step::Take, Step::Take, Step::Take, Step::Take];
    let pl3 = seq![Step::Take, Step::Take, Step::Take, Step::Take, Step::Take, Step::Take, Step::Take, Step::Take, Step::Take];
    let pl4 = seq![Step::Take, Step::Take, Step::Take, Step::Take, Step::Take, Step::Take, Step::Take, Step::Take];
    let pl5 = seq![Step::Take, Step::Take, Step::Take, Step::Take, Step::Take, Step::Take, Step::Take];
    let pl6 = seq![Step::Take, Step::Take, Step::Take, Step::Take, Step::Take, Step::Take];
    let pl7 = seq![Step::Take, Step::Take, Step::Take, Step::Take, Step::Take];
    let pl8 = seq![Step::Take, Step::Take, Step::Take, Step::Take];
    let pl9 = seq![Step::Take, Step::Take, Step::Take];
    let pl10 = seq![Step::Take, Step::Take];
    let pl11 = seq![Step::Take];
    let pl12 = Seq::<Step>::empty();
    assert(pl0.drop_first() =~= pl1);
    assert(pl1.drop_first() =~= pl2);
    assert(pl2.drop_first() =~= pl3);
    assert(pl3.drop_first() =~= pl4);
    assert(pl4.drop_first() =~= pl5);
    assert(pl5.drop_first() =~= pl6);
    assert(pl6.drop_first() =~= pl7);
    assert(pl7.drop_first() =~= pl8);
    assert(pl8.drop_first() =~= pl9);
    assert(pl9.drop_first() =~= pl10);
    assert(pl10.drop_first() =~= pl11);
    assert(pl11.drop_first() =~= pl12);
    let t0 = Seq::<Seq<u8>>::empty();
    let t1 = seq![toks[0]];
    assert(t0.push(toks[0]) =~= t1);
    assert(parse_plan(toks, pl0, 0, t0, 12) == parse_plan(toks, pl1, 1, t1, 12));
    let t2 = seq![toks[0], toks[1]];
    assert(t1.push(toks[1]) =~= t2);
    assert(parse_plan(toks, pl1, 1, t1, 12) == parse_plan(toks, pl2, 2, t2, 12));
    let t3 = seq![toks[0], toks[1], toks[2]];
    assert(t2.push(toks[2]) =~= t3);
    assert(parse_plan(toks, pl2, 2, t2, 12) == parse_plan(toks, pl3, 3, t3, 12));
    let t4 = seq![toks[0], toks[1], toks[2], toks[3]];
    assert(t3.push(toks[3]) =~= t4);
    assert(parse_plan(toks, pl3, 3, t3, 12) == parse_plan(toks, pl4, 4, t4, 12));
    let t5 = seq![toks[0], toks[1], toks[2], toks[3], toks[4]];
    assert(t4.push(toks[4]) =~= t5);
    assert(parse_plan(toks, pl4, 4, t4, 12) == parse_plan(toks, pl5, 5, t5, 12));
    let t6 = seq![toks[0], toks[1], toks[2], toks[3], toks[4], toks[5]];
    assert(t5.push(toks[5]) =~= t6);
    assert(parse_plan(toks, pl5, 5, t5, 12) == parse_plan(toks, pl6, 6, t6, 12));
    let t7 = seq![toks[0], toks[1], toks[2], toks[3], toks[4], toks[5], toks[6]];
    assert(t6.push(toks[6]) =~= t7);
    assert(parse_plan(toks, pl6, 6, t6, 12) == parse_plan(toks, pl7, 7, t7, 12));
    let t8 = seq![toks[0], toks[1], toks[2], toks[3], toks[4], toks[5], toks[6], toks[7]];
    assert(t7.push(toks[7]) =~= t8);
    assert(parse_plan(toks, pl7, 7, t7, 12) == parse_plan(toks, pl8, 8, t8, 12));
    let t9 = seq![toks[0], toks[1], toks[2], toks[3], toks[4], toks[5], toks[6], toks[7], toks[8]];
    assert(t8.push(toks[8]) =~= t9);
    assert(parse_plan(toks, pl8, 8, t8, 12) == parse_plan(toks, pl9, 9, t9, 12));
    let t10 = seq![toks[0], toks[1], toks[2], toks[3], toks[4], toks[5], toks[6], toks[7], toks[8], toks[9]];
    assert(t9.push(toks[9]) =~= t10);
    assert(parse_plan(toks, pl9, 9, t9, 12) == parse_plan(toks, pl10, 10, t10, 12));
    let t11 = seq![toks[0], toks[1], toks[2], toks[3], toks[4], toks[5], toks[6], toks[7], toks[8], toks[9], toks[10]];
    assert(t10.push(toks[10]) =~= t11);
    assert(parse_plan(toks, pl10, 10, t10, 12) == parse_plan(toks, pl11, 11, t11, 12));
    let t12 = seq![toks[0], toks[1], toks[2], toks[3], toks[4], toks[5], toks[6], toks[7], toks[8], toks[9], toks[10], toks[11]];
    assert(t11.push(toks[11]) =~= t12);
    assert(parse_plan(toks, pl11, 11, t11, 12) == parse_plan(toks, pl12, 12, t12, 12));
    assert(parse_plan(toks, pl12, 12, t12, 12) == Ok::<Seq<Seq<u8>>, ErrorView>(t12));
}

/// Round trip: decoding either rendering of an encoded identifier yields
/// that identifier again, for every 64-bit value.
#[verifier::rlimit(100)]
pub proof fn lemma_round_trip(lex: Lexicon, p: Punk, n: u64)
    requires
        lex.wf(),
        p.wf(),
        p.encodes(lex, n),
    ensures
        decode_spec(
            lex,
            natural_bytes(
                cap_bytes(ascii_seq(p.verbs@[0]@)),
                cap_bytes(ascii_seq(p.pronouns@[0]@)),
                cap_bytes(ascii_seq(p.verbs@[1]@)),
                cap_bytes(ascii_seq(p.pronouns@[1]@)),
                cap_bytes(ascii_seq(p.verbs@[2]@)),
                cap_bytes(ascii_seq(p.pronouns@[2]@)),
                cap_bytes(ascii_seq(p.verbs@[3]@)),
                cap_bytes(ascii_seq(p.pronouns@[3]@)),
                cap_bytes(ascii_seq(p.adjectives@[0]@)),
                cap_bytes(ascii_seq(p.adjectives@[1]@)),
                cap_bytes(ascii_seq(p.adjectives@[2]@)),
                cap_bytes(ascii_seq(p.adjectives@[3]@)),
            ),
        ) == Ok::<u64, ErrorView>(n),
        decode_spec(
            lex,
            hyphen_bytes(
                ascii_seq(p.verbs@[0]@),
                ascii_seq(p.pronouns@[0]@),
                ascii_seq(p.verbs@[1]@),
                ascii_seq(p.pronouns@[1]@),
                ascii_seq(p.verbs@[2]@),
                ascii_seq(p.pronouns@[2]@),
                ascii_seq(p.verbs@[3]@),
                ascii_seq(p.pronouns@[3]@),
                ascii_seq(p.adjectives@[0]@),
                ascii_seq(p.adjectives@[1]@),
                ascii_seq(p.adjectives@[2]@),
                ascii_seq(p.adjectives@[3]@),
            ),
        ) == Ok::<u64, ErrorView>(n),
{
    lex.verb_singular.lemma_wf_len();
    lex.object_pronoun.lemma_wf_len();
    lex.adjective.lemma_wf_len();
    vstd::arithmetic::power2::lemma2_to64();
    lemma_pow_small();
    let v0 = ascii_seq(p.verbs@[0]@);
    let v1 = ascii_seq(p.verbs@[1]@);
    let v2 = ascii_seq(p.verbs@[2]@);
    let v3 = ascii_seq(p.verbs@[3]@);
    let q0 = ascii_seq(p.pronouns@[0]@);
    let q1 = ascii_seq(p.pronouns@[1]@);
    let q2 = ascii_seq(p.pronouns@[2]@);
    let q3 = ascii_seq(p.pronouns@[3]@);
    let b0 = ascii_seq(p.adjectives@[0]@);
    let b1 = ascii_seq(p.adjectives@[1]@);
    let b2 = ascii_seq(p.adjectives@[2]@);
    let b3 = ascii_seq(p.adjectives@[3]@);
    crate::text::lemma_word_chars_bytes(p.verbs@[0]@);
    crate::text::lemma_word_chars_bytes(p.verbs@[1]@);
    crate::text::lemma_word_chars_bytes(p.verbs@[2]@);
    crate::text::lemma_word_chars_bytes(p.verbs@[3]@);
    crate::text::lemma_word_chars_bytes(p.pronouns@[0]@);
    crate::text::lemma_word_chars_bytes(p.pronouns@[1]@);
    crate::text::lemma_word_chars_bytes(p.pronouns@[2]@);
    crate::text::lemma_word_chars_bytes(p.pronouns@[3]@);
    crate::text::lemma_word_chars_bytes(p.adjectives@[0]@);
    crate::text::lemma_word_chars_bytes(p.adjectives@[1]@);
    crate::text::lemma_word_chars_bytes(p.adjectives@[2]@);
    crate::text::lemma_word_chars_bytes(p.adjectives@[3]@);
    lemma_cap_bytes(v0);
    lemma_cap_bytes(v1);
    lemma_cap_bytes(v2);
    lemma_cap_bytes(v3);
    lemma_cap_bytes(q0);
    lemma_cap_bytes(q1);
    lemma_cap_bytes(q2);
    lemma_cap_bytes(q3);
    lemma_cap_bytes(b0);
    lemma_cap_bytes(b1);
    lemma_cap_bytes(b2);
    lemma_cap_bytes(b3);
    lemma_natural_tokens(
        cap_bytes(v0),
        cap_bytes(q0),
        cap_bytes(v1),
        cap_bytes(q1),
        cap_bytes(v2),
        cap_bytes(q2),
        cap_bytes(v3),
        cap_bytes(q3),
        cap_bytes(b0),
        cap_bytes(b1),
        cap_bytes(b2),
        cap_bytes(b3),
    );
    lemma_hyphen_tokens(v0, q0, v1, q1, v2, q2, v3, q3, b0, b1, b2, b3);
    let toks_n = seq![
        cap_bytes(v0),
        cap_bytes(q0),
        cap_bytes(v1),
        cap_bytes(q1),
        cap_bytes(v2),
        cap_bytes(q2),
        cap_bytes(v3),
        cap_bytes(q3),
        cap_bytes(b0),
        cap_bytes(b1),
        cap_bytes(b2),
        cap_bytes(b3),
    ];
    let toks_h = seq![v0, q0, v1, q1, v2, q2, v3, q3, b0, b1, b2, b3];
    lemma_parse_all(toks_n);
    lemma_parse_all(toks_h);
    let ni = n as int;
    // adjectives: four no-repeat draws of 8 bits from the high half
    let abits = ni / 0x1_0000_0000;
    let aws_n = seq![cap_bytes(b0), cap_bytes(b1), cap_bytes(b2), cap_bytes(b3)];
    let aws_h = seq![b0, b1, b2, b3];
    assert forall|k: int| 0 <= k < 4 implies eq_ic(
        #[trigger] aws_n[k],
        lex.adjective@[norep_index(256, k, abits)],
    ) by {
        assert(aws_n[k] == cap_bytes(aws_h[k]));
    }
    crate::mapper::lemma_decode_norep_inverse(lex.adjective@, 256, 4, abits, 0, aws_n);
    crate::mapper::lemma_decode_norep_inverse(lex.adjective@, 256, 4, abits, 0, aws_h);
    assert(aws_n.reverse() =~= seq![cap_bytes(b3), cap_bytes(b2), cap_bytes(b1), cap_bytes(b0)]);
    assert(aws_h.reverse() =~= seq![b3, b2, b1, b0]);
    assert(abits % 0x1_0000_0000 == abits) by {
        assert(abits < 0x1_0000_0000);
        vstd::arithmetic::div_mod::lemma_small_mod(abits as nat, 0x1_0000_0000);
    }
    let acc1 = abits;
    // pronouns: four repeatable draws of 2 bits
    let pbits = ni / 0x100_0000;
    let pws_n = seq![cap_bytes(q0), cap_bytes(q1), cap_bytes(q2), cap_bytes(q3)];
    let pws_h = seq![q0, q1, q2, q3];
    assert forall|k: int| 0 <= k < 4 implies eq_ic(
        #[trigger] pws_n[k],
        lex.object_pronoun@[plain_index(4, k, pbits)],
    ) by {
        assert(pws_n[k] == cap_bytes(pws_h[k]));
    }
    crate::mapper::lemma_decode_words_inverse(lex.object_pronoun@, 4, pbits, acc1, pws_n);
    crate::mapper::lemma_decode_words_inverse(lex.object_pronoun@, 4, pbits, acc1, pws_h);
    assert(pws_n.reverse() =~= seq![cap_bytes(q3), cap_bytes(q2), cap_bytes(q1), cap_bytes(q0)]);
    assert(pws_h.reverse() =~= seq![q3, q2, q1, q0]);
    let acc2 = acc1 * 256 + pbits % 256;
    assert(acc2 == ni / 0x100_0000) by {
        crate::mapper::lemma_stage(ni, 0x100_0000, 256);
        vstd::arithmetic::div_mod::lemma_div_denominator(ni, 0x100_0000, 256);
    }
    // verbs: four no-repeat draws of 6 bits from the low bits
    let vws_n = seq![cap_bytes(v0), cap_bytes(v1), cap_bytes(v2), cap_bytes(v3)];
    let vws_h = seq![v0, v1, v2, v3];
    assert forall|k: int| 0 <= k < 4 implies eq_ic(
        #[trigger] vws_n[k],
        lex.verb_singular@[norep_index(64, k, ni)],
    ) by {
        assert(vws_n[k] == cap_bytes(vws_h[k]));
    }
    crate::mapper::lemma_decode_norep_inverse(lex.verb_singular@, 64, 4, ni, acc2, vws_n);
    crate::mapper::lemma_decode_norep_inverse(lex.verb_singular@, 64, 4, ni, acc2, vws_h);
    assert(vws_n.reverse() =~= seq![cap_bytes(v3), cap_bytes(v2), cap_bytes(v1), cap_bytes(v0)]);
    assert(vws_h.reverse() =~= seq![v3, v2, v1, v0]);
    let acc3 = acc2 * 0x100_0000 + ni % 0x100_0000;
    assert(acc3 == ni) by {
        crate::mapper::lemma_stage(ni, 1, 0x100_0000);
    }
    // the reversed word lists are exactly the parsed positions
    let out_n = seq![toks_n[0], toks_n[1], toks_n[2], toks_n[3], toks_n[4], toks_n[5], toks_n[6], toks_n[7], toks_n[8], toks_n[9], toks_n[10], toks_n[11]];
    let out_h = seq![toks_h[0], toks_h[1], toks_h[2], toks_h[3], toks_h[4], toks_h[5], toks_h[6], toks_h[7], toks_h[8], toks_h[9], toks_h[10], toks_h[11]];
    assert(seq![out_n[11], out_n[10], out_n[9], out_n[8]] =~= aws_n.reverse());
    assert(seq![out_n[7], out_n[5], out_n[3], out_n[1]] =~= pws_n.reverse());
    assert(seq![out_n[6], out_n[4], out_n[2], out_n[0]] =~= vws_n.reverse());
    assert(seq![out_h[11], out_h[10], out_h[9], out_h[8]] =~= aws_h.reverse());
    assert(seq![out_h[7], out_h[5], out_h[3], out_h[1]] =~= pws_h.reverse());
    assert(seq![out_h[6], out_h[4], out_h[2], out_h[0]] =~= vws_h.reverse());
}

} // verus!
