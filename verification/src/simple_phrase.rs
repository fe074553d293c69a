//! The 32-bit scheme: `The <adjective> <noun> <verb> <adverb>`.
//!
//! Encoding consumes the integer low bits first: 10 to the adjective, 10 to
//! the noun, 10 to the verb, 9 to the adverb (39 bits, covering all 32).
//! Decoding feeds the words to the dictionaries in the exact reverse order,
//! shifting each index back in.

use vstd::prelude::*;
use vstd::arithmetic::div_mod::{lemma_div_denominator, lemma_fundamental_div_mod};
use vstd::string::StringSliceAdditionalSpecFns;

use crate::ascii::{ascii_seq, eq_ic, is_alpha, word_chars_ok};
use crate::eytzinger::words_bytes;
use crate::lexicon::Lexicon;
use crate::mapper::{dict_find, lemma_dict_find_range, string_bytes};
use crate::schemes::{parse_plan, parse_tokens, skip_set_match, take_count, Error, ErrorView, Hyphenated, SkipSet, Step};
use crate::text::{ascii_to_string, lemma_tokenize_separated, push_str_bytes, push_word_bytes, seps_then_words, string_to_words, tokenize, word_bytes_ok};

verus! {

/// A 32-bit identifier as four words.
pub struct SimplePhrase {
    pub adjective: String,
    pub noun: String,
    pub verb: String,
    pub adverb: String,
}

impl SimplePhrase {
    /// Every field is a word.
    pub open spec fn wf(&self) -> bool {
        word_chars_ok(self.adjective@) && word_chars_ok(self.noun@) && word_chars_ok(self.verb@)
            && word_chars_ok(self.adverb@)
    }

    /// The phrase encodes `n` over the lexicon: each word is the dictionary
    /// entry its bit segment selects.
    pub open spec fn encodes(&self, lex: Lexicon, n: u32) -> bool {
        &&& ascii_seq(self.adjective@) == lex.adjective@[(n as int) % 1024]
        &&& ascii_seq(self.noun@) == lex.noun@[((n as int) / 1024) % 1024]
        &&& ascii_seq(self.verb@) == lex.verb_plural@[((n as int) / 0x10_0000) % 1024]
        &&& ascii_seq(self.adverb@) == lex.adverb@[((n as int) / 0x4000_0000) % 512]
    }

    /// Encodes a 32-bit identifier as a simple phrase.
    pub fn encode(lex: &Lexicon, bits: u32) -> (r: SimplePhrase)
        requires
            lex.wf(),
        ensures
            r.wf(),
            r.encodes(*lex, bits),
    {
        encode(lex, bits)
    }

    /// Wraps the phrase for hyphenated rendering.
    pub fn hyphenated(self) -> (r: Hyphenated<SimplePhrase>)
        ensures
            r.0 == self,
    {
        Hyphenated(self)
    }

    /// The natural rendering: `The adjective noun verb adverb`.
    pub fn text(&self) -> (r: String)
        requires
            self.wf(),
        ensures
            ascii_seq(r@) == natural_bytes(
                ascii_seq(self.adjective@),
                ascii_seq(self.noun@),
                ascii_seq(self.verb@),
                ascii_seq(self.adverb@),
            ),
    {
        let mut buf: Vec<u8> = Vec::new();
        proof {
            reveal_strlit("The ");
            reveal_strlit(" ");
        }
        push_str_bytes(&mut buf, "The ");
        push_word_bytes(&mut buf, &self.adjective);
        push_str_bytes(&mut buf, " ");
        push_word_bytes(&mut buf, &self.noun);
        push_str_bytes(&mut buf, " ");
        push_word_bytes(&mut buf, &self.verb);
        push_str_bytes(&mut buf, " ");
        push_word_bytes(&mut buf, &self.adverb);
        let ghost bufg = buf@;
        let r = ascii_to_string(buf);
        proof {
            assert(ascii_seq("The "@) =~= word_the() + sp());
            assert(ascii_seq(" "@) =~= sp());
            assert(ascii_seq(r@) =~= bufg);
            assert(bufg =~= natural_bytes(
                ascii_seq(self.adjective@),
                ascii_seq(self.noun@),
                ascii_seq(self.verb@),
                ascii_seq(self.adverb@),
            ));
        }
        r
    }
}

impl Hyphenated<SimplePhrase> {
    /// The compact rendering: the four words joined by hyphens.
    pub fn text(&self) -> (r: String)
        requires
            self.0.wf(),
        ensures
            ascii_seq(r@) == hyphen_bytes(
                ascii_seq(self.0.adjective@),
                ascii_seq(self.0.noun@),
                ascii_seq(self.0.verb@),
                ascii_seq(self.0.adverb@),
            ),
    {
        let mut buf: Vec<u8> = Vec::new();
        proof {
            reveal_strlit("-");
        }
        push_word_bytes(&mut buf, &self.0.adjective);
        push_str_bytes(&mut buf, "-");
        push_word_bytes(&mut buf, &self.0.noun);
        push_str_bytes(&mut buf, "-");
        push_word_bytes(&mut buf, &self.0.verb);
        push_str_bytes(&mut buf, "-");
        push_word_bytes(&mut buf, &self.0.adverb);
        let ghost bufg = buf@;
        let r = ascii_to_string(buf);
        proof {
            assert(ascii_seq("-"@) =~= dash());
            assert(ascii_seq(r@) =~= bufg);
            assert(bufg =~= hyphen_bytes(
                ascii_seq(self.0.adjective@),
                ascii_seq(self.0.noun@),
                ascii_seq(self.0.verb@),
                ascii_seq(self.0.adverb@),
            ));
        }
        r
    }
}

/// The template word "The", as bytes.
pub open spec fn word_the() -> Seq<u8> {
    seq![84u8, 104u8, 101u8]
}

/// A space.
pub open spec fn sp() -> Seq<u8> {
    seq![32u8]
}

/// A hyphen.
pub open spec fn dash() -> Seq<u8> {
    seq![45u8]
}

/// The bytes of the natural rendering.
pub open spec fn natural_bytes(a: Seq<u8>, n: Seq<u8>, v: Seq<u8>, d: Seq<u8>) -> Seq<u8> {
    word_the() + sp() + a + sp() + n + sp() + v + sp() + d
}

/// The bytes of the hyphenated rendering.
pub open spec fn hyphen_bytes(a: Seq<u8>, n: Seq<u8>, v: Seq<u8>, d: Seq<u8>) -> Seq<u8> {
    a + dash() + n + dash() + v + dash() + d
}

/// The parsing template: one optional leading article, then exactly four
/// content words.
pub open spec fn plan_spec() -> Seq<Step> {
    seq![
        Step::Skip(SkipSet::Articles),
        Step::Take,
        Step::Take,
        Step::Take,
        Step::Take,
    ]
}

/// What decoding returns on any input text, over the lexicon: the words of
/// the text are parsed against the template, then looked up in reverse draw
/// order; the reassembled bit pattern is the identifier.
pub open spec fn decode_spec(lex: Lexicon, bytes: Seq<u8>) -> Result<u32, ErrorView> {
    let toks = tokenize(bytes);
    match parse_plan(toks, plan_spec(), 0, seq![], 4) {
        Err(e) => Err(e),
        Ok(ws) => decode_words_value(lex, ws),
    }
}

/// Encodes a 32-bit identifier as a simple phrase.
pub fn encode(lex: &Lexicon, bits: u32) -> (r: SimplePhrase)
    requires
        lex.wf(),
    ensures
        r.wf(),
        r.encodes(*lex, bits),
{
    let (adjective, rest) = lex.adjective.encode_word(bits as u128);
    let (noun, rest) = lex.noun.encode_word(rest);
    let (verb, rest) = lex.verb_plural.encode_word(rest);
    let (adverb, rest) = lex.adverb.encode_word(rest);
    proof {
        lex.adjective.lemma_wf_len();
        lex.noun.lemma_wf_len();
        lex.verb_plural.lemma_wf_len();
        lex.adverb.lemma_wf_len();
        vstd::arithmetic::power2::lemma2_to64();
        lemma_chain_div(bits as int, 1024, 1024);
        lemma_chain_div(bits as int, 0x10_0000, 1024);
        // after four draws nothing of the integer is left
        assert(rest == (bits as int) / 0x4000_0000 / 512);
    }
    SimplePhrase { adjective, noun, verb, adverb }
}

/// Composing two divisions divides by the product.
proof fn lemma_chain_div(x: int, a: int, b: int)
    requires
        x >= 0,
        a >= 1,
        b >= 1,
    ensures
        x / a / b == x / (a * b),
{
    lemma_div_denominator(x, a, b);
}

/// Decodes free text against the simple-phrase template: the exact reverse
/// of `encode`, returning the identifier or the template's failure.
pub fn decode(lex: &Lexicon, s: &str) -> (r: Result<u32, Error>)
    requires
        lex.wf(),
    ensures
        match r {
            Ok(n) => decode_spec(*lex, s.spec_bytes()) == Ok::<u32, ErrorView>(n),
            Err(e) => decode_spec(*lex, s.spec_bytes()) == Err::<u32, ErrorView>(e@) && e.wf(),
        },
{
    let toks = string_to_words(s);
    let mut plan: Vec<Step> = Vec::new();
    plan.push(Step::Skip(SkipSet::Articles));
    plan.push(Step::Take);
    plan.push(Step::Take);
    plan.push(Step::Take);
    plan.push(Step::Take);
    proof {
        assert(plan@ =~= plan_spec());
    }
    let ws = match parse_tokens(&toks, &plan, 4) {
        Err(e) => {
            return Err(e);
        },
        Ok(ws) => ws,
    };
    proof {
        lex.adverb.lemma_wf_len();
        lex.verb_plural.lemma_wf_len();
        lex.noun.lemma_wf_len();
        lex.adjective.lemma_wf_len();
        vstd::arithmetic::power2::lemma2_to64();
        vstd::arithmetic::power2::lemma_pow2_pos(118);
        vstd::arithmetic::power2::lemma_pow2_pos(119);
        lemma_dict_find_range(lex.adverb@, words_bytes(ws@)[3]);
        lemma_dict_find_range(lex.verb_plural@, words_bytes(ws@)[2]);
        lemma_dict_find_range(lex.noun@, words_bytes(ws@)[1]);
        lemma_dict_find_range(lex.adjective@, words_bytes(ws@)[0]);
        crate::schemes::lemma_parse_plan_len(
            tokenize(s.spec_bytes()),
            plan_spec(),
            0,
            seq![],
            4,
        );
        lemma_plan_take_count();
        assert(ws@.len() == 4);
        assert forall|i: int| 0 <= i < ws@.len() implies string_bytes(#[trigger] ws@[i]@)
            == words_bytes(ws@)[i] by {
            let w = ws@[i]@;
            assert forall|k: int| 0 <= k < w.len() implies '\0' <= #[trigger] w[k]
                <= '\u{7f}' by {
                assert(crate::ascii::char_is_alpha(w[k]));
            }
            vstd::utf8::is_ascii_chars_encode_utf8(w);
            assert(string_bytes(w) =~= ascii_seq(w));
        }
    }
    let ghost wsb = words_bytes(ws@);
    let acc1 = match lex.adverb.decode_word(ws[3].as_str(), 0) {
        None => {
            return Err(unrecognized(&ws, 3));
        },
        Some(acc) => acc,
    };
    let ghost di = dict_find(lex.adverb@, wsb[3]).unwrap();
    proof {
        vstd::arithmetic::power2::lemma_pow2_strictly_increases(9, 118);
        assert(acc1 as int == di);
        assert((acc1 as int) < 512);
    }
    let acc2 = match lex.verb_plural.decode_word(ws[2].as_str(), acc1) {
        None => {
            return Err(unrecognized(&ws, 2));
        },
        Some(acc) => acc,
    };
    let ghost vi = dict_find(lex.verb_plural@, wsb[2]).unwrap();
    proof {
        vstd::arithmetic::power2::lemma_pow2_strictly_increases(19, 118);
        assert(acc2 as int == di * 1024 + vi);
        assert((acc2 as int) < 0x8_0000);
    }
    let acc3 = match lex.noun.decode_word(ws[1].as_str(), acc2) {
        None => {
            return Err(unrecognized(&ws, 1));
        },
        Some(acc) => acc,
    };
    let ghost ni = dict_find(lex.noun@, wsb[1]).unwrap();
    proof {
        vstd::arithmetic::power2::lemma_pow2_strictly_increases(29, 118);
        assert(acc3 as int == (di * 1024 + vi) * 1024 + ni);
        assert((acc3 as int) < 0x2000_0000);
    }
    let acc4 = match lex.adjective.decode_word(ws[0].as_str(), acc3) {
        None => {
            return Err(unrecognized(&ws, 0));
        },
        Some(acc) => acc,
    };
    let ghost ai = dict_find(lex.adjective@, wsb[0]).unwrap();
    let r = #[verifier::truncate] (acc4 as u32);
    proof {
        assert(acc4 as int == ((di * 1024 + vi) * 1024 + ni) * 1024 + ai);
        assert((acc4 as int) < 0x80_0000_0000);
        assert(((acc4 as u32) as u128) == acc4 % 0x1_0000_0000u128) by (bit_vector);
        assert(r as int == (acc4 as int) % 0x1_0000_0000);
    }
    Ok(r)
}

/// The template reads four content words.
proof fn lemma_plan_take_count()
    ensures
        take_count(plan_spec()) == 4,
{
    let p0 = plan_spec();
    let p1 = seq![Step::Take, Step::Take, Step::Take, Step::Take];
    let p2 = seq![Step::Take, Step::Take, Step::Take];
    let p3 = seq![Step::Take, Step::Take];
    let p4 = seq![Step::Take];
    let p5 = Seq::<Step>::empty();
    assert(p0.drop_first() =~= p1);
    assert(p1.drop_first() =~= p2);
    assert(p2.drop_first() =~= p3);
    assert(p3.drop_first() =~= p4);
    assert(p4.drop_first() =~= p5);
    assert(take_count(p5) == 0);
    assert(take_count(p4) == 1);
    assert(take_count(p3) == 2);
    assert(take_count(p2) == 3);
    assert(take_count(p1) == 4);
    assert(take_count(p0) == 4);
}

/// The word bytes of the parsed word at a position.
pub open spec fn word_bytes_at(ws: Seq<String>, i: int) -> Seq<u8> {
    ascii_seq(ws[i]@)
}

/// Reports a word missing from its dictionary.
fn unrecognized(ws: &Vec<String>, i: usize) -> (r: Error)
    requires
        i < ws@.len(),
        word_chars_ok(ws@[i as int]@),
    ensures
        r@ == (ErrorView::Unrecognized { word: words_bytes(ws@)[i as int] }),
        r.wf(),
{
    let w = ws[i].clone();
    proof {
        let s = w@;
        assert forall|k: int| 0 <= k < s.len() implies '\0' <= #[trigger] s[k] <= '\u{7f}' by {
            assert(crate::ascii::char_is_alpha(s[k]));
        }
        vstd::utf8::is_ascii_chars_encode_utf8(w@);
        assert(string_bytes(w@) =~= ascii_seq(w@));
    }
    Error::Unrecognized { word: w }
}

/// The words of the natural rendering: the leading article, then the four
/// content words.
proof fn lemma_natural_tokens(a: Seq<u8>, nn: Seq<u8>, v: Seq<u8>, dd: Seq<u8>)
    requires
        word_bytes_ok(a),
        word_bytes_ok(nn),
        word_bytes_ok(v),
        word_bytes_ok(dd),
    ensures
        tokenize(natural_bytes(a, nn, v, dd)) == seq![word_the(), a, nn, v, dd],
{
    assert(word_bytes_ok(word_the())) by {
        assert(is_alpha(word_the()[0]));
        assert(is_alpha(word_the()[1]));
        assert(is_alpha(word_the()[2]));
    }
    let toks = seq![word_the(), a, nn, v, dd];
    let seps = seq![Seq::<u8>::empty(), sp(), sp(), sp(), sp()];
    assert(seps_then_words(seq![sp()], seq![dd]) =~= sp() + dd + (Seq::<u8>::empty())) by {
        assert(seq![sp()].drop_first() =~= Seq::<Seq<u8>>::empty());
        assert(seq![dd].drop_first() =~= Seq::<Seq<u8>>::empty());
        assert(seps_then_words(Seq::<Seq<u8>>::empty(), Seq::<Seq<u8>>::empty()) == Seq::<u8>::empty());
    }
    assert(seps_then_words(seq![sp(), sp()], seq![v, dd]) =~= sp() + v + (sp() + dd + (Seq::<u8>::empty()))) by {
        assert(seq![sp(), sp()].drop_first() =~= seq![sp()]);
        assert(seq![v, dd].drop_first() =~= seq![dd]);
    }
    assert(seps_then_words(seq![sp(), sp(), sp()], seq![nn, v, dd]) =~= sp() + nn + (sp() + v + (sp() + dd + (Seq::<u8>::empty())))) by {
        assert(seq![sp(), sp(), sp()].drop_first() =~= seq![sp(), sp()]);
        assert(seq![nn, v, dd].drop_first() =~= seq![v, dd]);
    }
    assert(seps_then_words(seq![sp(), sp(), sp(), sp()], seq![a, nn, v, dd]) =~= sp() + a + (sp() + nn + (sp() + v + (sp() + dd + (Seq::<u8>::empty()))))) by {
        assert(seq![sp(), sp(), sp(), sp()].drop_first() =~= seq![sp(), sp(), sp()]);
        assert(seq![a, nn, v, dd].drop_first() =~= seq![nn, v, dd]);
    }
    assert(seps_then_words(seq![Seq::<u8>::empty(), sp(), sp(), sp(), sp()], seq![word_the(), a, nn, v, dd]) =~= Seq::<u8>::empty() + word_the() + (sp() + a + (sp() + nn + (sp() + v + (sp() + dd + (Seq::<u8>::empty())))))) by {
        assert(seq![Seq::<u8>::empty(), sp(), sp(), sp(), sp()].drop_first() =~= seq![sp(), sp(), sp(), sp()]);
        assert(seq![word_the(), a, nn, v, dd].drop_first() =~= seq![a, nn, v, dd]);
    }
    assert((Seq::<u8>::empty() + word_the() + (sp() + a + (sp() + nn + (sp() + v + (sp() + dd + (Seq::<u8>::empty())))))) =~= natural_bytes(a, nn, v, dd));
    assert(seps_then_words(seps, toks) =~= natural_bytes(a, nn, v, dd));
    lemma_tokenize_separated(seps, toks);
}

/// The words of the hyphenated rendering: the four content words.
proof fn lemma_hyphen_tokens(a: Seq<u8>, nn: Seq<u8>, v: Seq<u8>, dd: Seq<u8>)
    requires
        word_bytes_ok(a),
        word_bytes_ok(nn),
        word_bytes_ok(v),
        word_bytes_ok(dd),
    ensures
        tokenize(hyphen_bytes(a, nn, v, dd)) == seq![a, nn, v, dd],
{
    let toks = seq![a, nn, v, dd];
    let seps = seq![Seq::<u8>::empty(), dash(), dash(), dash()];
    assert(seps_then_words(seq![dash()], seq![dd]) =~= dash() + dd + (Seq::<u8>::empty())) by {
        assert(seq![dash()].drop_first() =~= Seq::<Seq<u8>>::empty());
        assert(seq![dd].drop_first() =~= Seq::<Seq<u8>>::empty());
        assert(seps_then_words(Seq::<Seq<u8>>::empty(), Seq::<Seq<u8>>::empty()) == Seq::<u8>::empty());
    }
    assert(seps_then_words(seq![dash(), dash()], seq![v, dd]) =~= dash() + v + (dash() + dd + (Seq::<u8>::empty()))) by {
        assert(seq![dash(), dash()].drop_first() =~= seq![dash()]);
        assert(seq![v, dd].drop_first() =~= seq![dd]);
    }
    assert(seps_then_words(seq![dash(), dash(), dash()], seq![nn, v, dd]) =~= dash() + nn + (dash() + v + (dash() + dd + (Seq::<u8>::empty())))) by {
        assert(seq![dash(), dash(), dash()].drop_first() =~= seq![dash(), dash()]);
        assert(seq![nn, v, dd].drop_first() =~= seq![v, dd]);
    }
    assert(seps_then_words(seq![Seq::<u8>::empty(), dash(), dash(), dash()], seq![a, nn, v, dd]) =~= Seq::<u8>::empty() + a + (dash() + nn + (dash() + v + (dash() + dd + (Seq::<u8>::empty()))))) by {
        assert(seq![Seq::<u8>::empty(), dash(), dash(), dash()].drop_first() =~= seq![dash(), dash(), dash()]);
        assert(seq![a, nn, v, dd].drop_first() =~= seq![nn, v, dd]);
    }
    assert((Seq::<u8>::empty() + a + (dash() + nn + (dash() + v + (dash() + dd + (Seq::<u8>::empty()))))) =~= hyphen_bytes(a, nn, v, dd));
    assert(seps_then_words(seps, toks) =~= hyphen_bytes(a, nn, v, dd));
    lemma_tokenize_separated(seps, toks);
}

/// Running the template over its own rendering's words yields the content
/// words: with a leading article it is skipped, without one nothing is.
proof fn lemma_parse_template(toks: Seq<Seq<u8>>, s: int)
    requires
        s == 0 || s == 1,
        toks.len() == 4 + s,
        (s == 1) == skip_set_match(SkipSet::Articles, toks[0]),
    ensures
        parse_plan(toks, plan_spec(), 0, seq![], 4) == Ok::<Seq<Seq<u8>>, ErrorView>(
            seq![toks[s], toks[s + 1], toks[s + 2], toks[s + 3]],
        ),
{
    let pl0 = plan_spec();
    let pl1 = seq![Step::Take, Step::Take, Step::Take, Step::Take];
    let pl2 = seq![Step::Take, Step::Take, Step::Take];
    let pl3 = seq![Step::Take, Step::Take];
    let pl4 = seq![Step::Take];
    let pl5 = Seq::<Step>::empty();
    assert(pl0.drop_first() =~= pl1);
    assert(pl1.drop_first() =~= pl2);
    assert(pl2.drop_first() =~= pl3);
    assert(pl3.drop_first() =~= pl4);
    assert(pl4.drop_first() =~= pl5);
    let t0 = Seq::<Seq<u8>>::empty();
    let t1 = seq![toks[s]];
    let t2 = seq![toks[s], toks[s + 1]];
    let t3 = seq![toks[s], toks[s + 1], toks[s + 2]];
    let t4 = seq![toks[s], toks[s + 1], toks[s + 2], toks[s + 3]];
    assert(t0.push(toks[s]) =~= t1);
    assert(t1.push(toks[s + 1]) =~= t2);
    assert(t2.push(toks[s + 2]) =~= t3);
    assert(t3.push(toks[s + 3]) =~= t4);
    assert(parse_plan(toks, pl0, 0, t0, 4) == parse_plan(toks, pl1, s, t0, 4));
    assert(parse_plan(toks, pl1, s, t0, 4) == parse_plan(toks, pl2, s + 1, t1, 4));
    assert(parse_plan(toks, pl2, s + 1, t1, 4) == parse_plan(toks, pl3, s + 2, t2, 4));
    assert(parse_plan(toks, pl3, s + 2, t2, 4) == parse_plan(toks, pl4, s + 3, t3, 4));
    assert(parse_plan(toks, pl4, s + 3, t3, 4) == parse_plan(toks, pl5, s + 4, t4, 4));
    assert(parse_plan(toks, pl5, s + 4, t4, 4) == Ok::<Seq<Seq<u8>>, ErrorView>(t4));
}

/// Looking the four words up in reverse reassembles the identifier.
proof fn lemma_value(lex: Lexicon, a: Seq<u8>, nn: Seq<u8>, v: Seq<u8>, dd: Seq<u8>, n: u32)
    requires
        lex.wf(),
        a == lex.adjective@[(n as int) % 1024],
        nn == lex.noun@[((n as int) / 1024) % 1024],
        v == lex.verb_plural@[((n as int) / 0x10_0000) % 1024],
        dd == lex.adverb@[((n as int) / 0x4000_0000) % 512],
    ensures
        ({
            let ws = seq![a, nn, v, dd];
            decode_words_value(lex, ws) == Ok::<u32, ErrorView>(n)
        }),
{
    lex.adjective.lemma_wf_len();
    lex.noun.lemma_wf_len();
    lex.verb_plural.lemma_wf_len();
    lex.adverb.lemma_wf_len();
    vstd::arithmetic::power2::lemma2_to64();
    let ai = (n as int) % 1024;
    let ni = ((n as int) / 1024) % 1024;
    let vi = ((n as int) / 0x10_0000) % 1024;
    let di = ((n as int) / 0x4000_0000) % 512;
    crate::mapper::lemma_dict_find_at(lex.adverb@, dd, di);
    crate::mapper::lemma_dict_find_at(lex.verb_plural@, v, vi);
    crate::mapper::lemma_dict_find_at(lex.noun@, nn, ni);
    crate::mapper::lemma_dict_find_at(lex.adjective@, a, ai);
    assert(di == (n as int) / 0x4000_0000) by {
        assert((n as int) / 0x4000_0000 < 512);
    }
    crate::mapper::lemma_stage(n as int, 0x10_0000, 1024);
    crate::mapper::lemma_stage(n as int, 1024, 1024);
    crate::mapper::lemma_stage(n as int, 1, 1024);
    assert(((di * 1024 + vi) * 1024 + ni) * 1024 + ai == n as int);
}

/// The dictionary lookups and bit reassembly of `decode_spec`, over already
/// parsed content words.
pub open spec fn decode_words_value(lex: Lexicon, ws: Seq<Seq<u8>>) -> Result<u32, ErrorView> {
    match dict_find(lex.adverb@, ws[3]) {
        None => Err(ErrorView::Unrecognized { word: ws[3] }),
        Some(di) => match dict_find(lex.verb_plural@, ws[2]) {
            None => Err(ErrorView::Unrecognized { word: ws[2] }),
            Some(vi) => match dict_find(lex.noun@, ws[1]) {
                None => Err(ErrorView::Unrecognized { word: ws[1] }),
                Some(ni) => match dict_find(lex.adjective@, ws[0]) {
                    None => Err(ErrorView::Unrecognized { word: ws[0] }),
                    Some(ai) => Ok(
                        ((((di * 1024 + vi) * 1024 + ni) * 1024 + ai) % 0x1_0000_0000) as u32,
                    ),
                },
            },
        },
    }
}

/// Round trip: decoding either rendering of an encoded identifier yields
/// that identifier again, for every 32-bit value.
pub proof fn lemma_round_trip(lex: Lexicon, p: SimplePhrase, n: u32)
    requires
        lex.wf(),
        p.wf(),
        p.encodes(lex, n),
    ensures
        decode_spec(
            lex,
            natural_bytes(
                ascii_seq(p.adjective@),
                ascii_seq(p.noun@),
                ascii_seq(p.verb@),
                ascii_seq(p.adverb@),
            ),
        ) == Ok::<u32, ErrorView>(n),
        decode_spec(
            lex,
            hyphen_bytes(
                ascii_seq(p.adjective@),
                ascii_seq(p.noun@),
                ascii_seq(p.verb@),
                ascii_seq(p.adverb@),
            ),
        ) == Ok::<u32, ErrorView>(n),
{
    lex.adjective.lemma_wf_len();
    lex.noun.lemma_wf_len();
    lex.verb_plural.lemma_wf_len();
    lex.adverb.lemma_wf_len();
    vstd::arithmetic::power2::lemma2_to64();
    let a = ascii_seq(p.adjective@);
    let nn = ascii_seq(p.noun@);
    let v = ascii_seq(p.verb@);
    let dd = ascii_seq(p.adverb@);
    crate::text::lemma_word_chars_bytes(p.adjective@);
    crate::text::lemma_word_chars_bytes(p.noun@);
    crate::text::lemma_word_chars_bytes(p.verb@);
    crate::text::lemma_word_chars_bytes(p.adverb@);
    lemma_natural_tokens(a, nn, v, dd);
    lemma_hyphen_tokens(a, nn, v, dd);
    assert(skip_set_match(SkipSet::Articles, word_the())) by {
        assert(crate::ascii::low_seq(word_the()) =~= crate::ascii::low_seq(
            crate::mapper::filler_the(),
        ));
    }
    let toks_n = seq![word_the(), a, nn, v, dd];
    let toks_h = seq![a, nn, v, dd];
    lemma_parse_template(toks_n, 1);
    lemma_parse_template(toks_h, 0);
    let out = seq![a, nn, v, dd];
    assert(seq![toks_n[1], toks_n[2], toks_n[3], toks_n[4]] =~= out);
    assert(seq![toks_h[0], toks_h[1], toks_h[2], toks_h[3]] =~= out);
    lemma_value(lex, a, nn, v, dd, n);
}

} // verus!
