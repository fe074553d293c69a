//! The 16-bit scheme: `The <adjective> <noun>`.
//!
//! Encoding consumes the integer low bits first: 10 to the adjective, 10 to
//! the noun (20 bits, covering all 16). Decoding feeds the words back in the
//! exact reverse order.

use vstd::prelude::*;
use vstd::string::StringSliceAdditionalSpecFns;

use crate::ascii::{ascii_seq, is_alpha, word_chars_ok};
use crate::eytzinger::words_bytes;
use crate::lexicon::Lexicon;
use crate::mapper::{dict_find, lemma_dict_find_range, string_bytes};
use crate::schemes::{
    parse_plan, parse_tokens, skip_set_match, take_count, Error, ErrorView, Hyphenated, SkipSet,
    Step,
};
use crate::simple_phrase::{dash, sp, word_the};
use crate::text::{
    ascii_to_string, lemma_tokenize_separated, push_str_bytes, push_word_bytes, seps_then_words,
    string_to_words, tokenize, word_bytes_ok,
};

verus! {

/// A 16-bit identifier as two words.
pub struct AdjectiveNoun {
    pub adjective: String,
    pub noun: String,
}

impl AdjectiveNoun {
    /// Every field is a word.
    pub open spec fn wf(&self) -> bool {
        word_chars_ok(self.adjective@) && word_chars_ok(self.noun@)
    }

    /// The phrase encodes `n` over the lexicon.
    pub open spec fn encodes(&self, lex: Lexicon, n: u16) -> bool {
        &&& ascii_seq(self.adjective@) == lex.adjective@[(n as int) % 1024]
        &&& ascii_seq(self.noun@) == lex.noun@[((n as int) / 1024) % 1024]
    }

    /// Encodes a 16-bit identifier as an adjective-noun pair.
    pub fn encode(lex: &Lexicon, bits: u16) -> (r: AdjectiveNoun)
        requires
            lex.wf(),
        ensures
            r.wf(),
            r.encodes(*lex, bits),
    {
        encode(lex, bits)
    }

    /// Wraps the pair for hyphenated rendering.
    pub fn hyphenated(self) -> (r: Hyphenated<AdjectiveNoun>)
        ensures
            r.0 == self,
    {
        Hyphenated(self)
    }

    /// The natural rendering: `The adjective noun`.
    pub fn text(&self) -> (r: String)
        requires
            self.wf(),
        ensures
            ascii_seq(r@) == natural_bytes(ascii_seq(self.adjective@), ascii_seq(self.noun@)),
    {
        let mut buf: Vec<u8> = Vec::new();
        proof {
            reveal_strlit("The ");
            reveal_strlit(" ");
        }
        push_str_bytes(&mut buf, "The ");
        push_word_bytes(&mut buf, &self.adjective);
        push_str_bytes(&mut buf, " ");
        push_word_bytes(&mut buf, &self.noun);
        let ghost bufg = buf@;
        let r = ascii_to_string(buf);
        proof {
            assert(ascii_seq("The "@) =~= word_the() + sp());
            assert(ascii_seq(" "@) =~= sp());
            assert(ascii_seq(r@) =~= bufg);
            assert(bufg =~= natural_bytes(ascii_seq(self.adjective@), ascii_seq(self.noun@)));
        }
        r
    }
}

impl Hyphenated<AdjectiveNoun> {
    /// The compact rendering: `adjective-noun`.
    pub fn text(&self) -> (r: String)
        requires
            self.0.wf(),
        ensures
            ascii_seq(r@) == hyphen_bytes(ascii_seq(self.0.adjective@), ascii_seq(self.0.noun@)),
    {
        let mut buf: Vec<u8> = Vec::new();
        proof {
            reveal_strlit("-");
        }
        push_word_bytes(&mut buf, &self.0.adjective);
        push_str_bytes(&mut buf, "-");
        push_word_bytes(&mut buf, &self.0.noun);
        let ghost bufg = buf@;
        let r = ascii_to_string(buf);
        proof {
            assert(ascii_seq("-"@) =~= dash());
            assert(ascii_seq(r@) =~= bufg);
            assert(bufg =~= hyphen_bytes(ascii_seq(self.0.adjective@), ascii_seq(self.0.noun@)));
        }
        r
    }
}

/// The bytes of the natural rendering.
pub open spec fn natural_bytes(a: Seq<u8>, n: Seq<u8>) -> Seq<u8> {
    word_the() + sp() + a + sp() + n
}

/// The bytes of the hyphenated rendering.
pub open spec fn hyphen_bytes(a: Seq<u8>, n: Seq<u8>) -> Seq<u8> {
    a + dash() + n
}

/// The parsing template: one optional leading article, then exactly two
/// content words.
pub open spec fn plan_spec() -> Seq<Step> {
    seq![Step::Skip(SkipSet::Articles), Step::Take, Step::Take]
}

/// The dictionary lookups and bit reassembly over parsed content words.
pub open spec fn decode_words_value(lex: Lexicon, ws: Seq<Seq<u8>>) -> Result<u16, ErrorView> {
    match dict_find(lex.noun@, ws[1]) {
        None => Err(ErrorView::Unrecognized { word: ws[1] }),
        Some(ni) => match dict_find(lex.adjective@, ws[0]) {
            None => Err(ErrorView::Unrecognized { word: ws[0] }),
            Some(ai) => Ok(((ni * 1024 + ai) % 0x1_0000) as u16),
        },
    }
}

/// What decoding returns on any input text, over the lexicon.
pub open spec fn decode_spec(lex: Lexicon, bytes: Seq<u8>) -> Result<u16, ErrorView> {
    let toks = tokenize(bytes);
    match parse_plan(toks, plan_spec(), 0, seq![], 2) {
        Err(e) => Err(e),
        Ok(ws) => decode_words_value(lex, ws),
    }
}

/// Encodes a 16-bit identifier as an adjective-noun pair.
pub fn encode(lex: &Lexicon, bits: u16) -> (r: AdjectiveNoun)
    requires
        lex.wf(),
    ensures
        r.wf(),
        r.encodes(*lex, bits),
{
    let (adjective, rest) = lex.adjective.encode_word(bits as u128);
    let (noun, rest) = lex.noun.encode_word(rest);
    proof {
        lex.adjective.lemma_wf_len();
        lex.noun.lemma_wf_len();
        vstd::arithmetic::power2::lemma2_to64();
        // after both draws nothing of the integer is left
        assert((bits as int) / 1024 < 64);
        vstd::arithmetic::div_mod::lemma_basic_div((bits as int) / 1024, 1024);
        assert(rest == 0);
    }
    AdjectiveNoun { adjective, noun }
}

/// Decodes free text against the adjective-noun template: the exact reverse
/// of `encode`.
pub fn decode(lex: &Lexicon, s: &str) -> (r: Result<u16, Error>)
    requires
        lex.wf(),
    ensures
        match r {
            Ok(n) => decode_spec(*lex, s.spec_bytes()) == Ok::<u16, ErrorView>(n),
            Err(e) => decode_spec(*lex, s.spec_bytes()) == Err::<u16, ErrorView>(e@) && e.wf(),
        },
{
    let toks = string_to_words(s);
    let mut plan: Vec<Step> = Vec::new();
    plan.push(Step::Skip(SkipSet::Articles));
    plan.push(Step::Take);
    plan.push(Step::Take);
    proof {
        assert(plan@ =~= plan_spec());
    }
    let ws = match parse_tokens(&toks, &plan, 2) {
        Err(e) => {
            return Err(e);
        },
        Ok(ws) => ws,
    };
    proof {
        lex.noun.lemma_wf_len();
        lex.adjective.lemma_wf_len();
        vstd::arithmetic::power2::lemma2_to64();
        vstd::arithmetic::power2::lemma_pow2_pos(118);
        lemma_dict_find_range(lex.noun@, words_bytes(ws@)[1]);
        lemma_dict_find_range(lex.adjective@, words_bytes(ws@)[0]);
        crate::schemes::lemma_parse_plan_len(tokenize(s.spec_bytes()), plan_spec(), 0, seq![], 2);
        lemma_plan_take_count();
        assert(ws@.len() == 2);
        assert forall|i: int| 0 <= i < ws@.len() implies string_bytes(#[trigger] ws@[i]@)
            == words_bytes(ws@)[i] by {
            let w = ws@[i]@;
            assert forall|k: int| 0 <= k < w.len() implies '\0' <= #[trigger] w[k]
                <= '\u{7f}' by {
                assert(crate::ascii::char_is_alpha(w[k]));
            }
            vstd::utf8::is_ascii_chars_encode_utf8(w);
            assert(string_bytes(w) =~= ascii_seq(w));
        }
    }
    let ghost wsb = words_bytes(ws@);
    let acc1 = match lex.noun.decode_word(ws[1].as_str(), 0) {
        None => {
            return Err(unrecognized(&ws, 1));
        },
        Some(acc) => acc,
    };
    let ghost ni = dict_find(lex.noun@, wsb[1]).unwrap();
    proof {
        vstd::arithmetic::power2::lemma_pow2_strictly_increases(10, 118);
        assert(acc1 as int == ni);
        assert((acc1 as int) < 1024);
    }
    let acc2 = match lex.adjective.decode_word(ws[0].as_str(), acc1) {
        None => {
            return Err(unrecognized(&ws, 0));
        },
        Some(acc) => acc,
    };
    let ghost ai = dict_find(lex.adjective@, wsb[0]).unwrap();
    let r = #[verifier::truncate] (acc2 as u16);
    proof {
        assert(acc2 as int == ni * 1024 + ai);
        assert(((acc2 as u16) as u128) == acc2 % 0x1_0000u128) by (bit_vector);
        assert(r as int == (acc2 as int) % 0x1_0000);
    }
    Ok(r)
}

/// The template reads two content words.
proof fn lemma_plan_take_count()
    ensures
        take_count(plan_spec()) == 2,
{
    let p0 = plan_spec();
    let p1 = seq![Step::Take, Step::Take];
    let p2 = seq![Step::Take];
    let p3 = Seq::<Step>::empty();
    assert(p0.drop_first() =~= p1);
    assert(p1.drop_first() =~= p2);
    assert(p2.drop_first() =~= p3);
    assert(take_count(p3) == 0);
    assert(take_count(p2) == 1);
    assert(take_count(p1) == 2);
    assert(take_count(p0) == 2);
}

/// Reports a word missing from its dictionary.
fn unrecognized(ws: &Vec<String>, i: usize) -> (r: Error)
    requires
        i < ws@.len(),
        word_chars_ok(ws@[i as int]@),
    ensures
        r@ == (ErrorView::Unrecognized { word: words_bytes(ws@)[i as int] }),
        r.wf(),
{
    let w = ws[i].clone();
    proof {
        let s = w@;
        assert forall|k: int| 0 <= k < s.len() implies '\0' <= #[trigger] s[k] <= '\u{7f}' by {
            assert(crate::ascii::char_is_alpha(s[k]));
        }
        vstd::utf8::is_ascii_chars_encode_utf8(w@);
        assert(string_bytes(w@) =~= ascii_seq(w@));
    }
    Error::Unrecognized { word: w }
}

/// The words of the natural rendering: the article and the two content words.
proof fn lemma_natural_tokens(a: Seq<u8>, nn: Seq<u8>)
    requires
        word_bytes_ok(a),
        word_bytes_ok(nn),
    ensures
        tokenize(natural_bytes(a, nn)) == seq![word_the(), a, nn],
{
    assert(word_bytes_ok(word_the())) by {
        assert(is_alpha(word_the()[0]));
        assert(is_alpha(word_the()[1]));
        assert(is_alpha(word_the()[2]));
    }
    let toks = seq![word_the(), a, nn];
    let seps = seq![Seq::<u8>::empty(), sp(), sp()];
    assert(seps_then_words(seq![sp()], seq![nn]) =~= sp() + nn + (Seq::<u8>::empty())) by {
        assert(seq![sp()].drop_first() =~= Seq::<Seq<u8>>::empty());
        assert(seq![nn].drop_first() =~= Seq::<Seq<u8>>::empty());
        assert(seps_then_words(Seq::<Seq<u8>>::empty(), Seq::<Seq<u8>>::empty()) == Seq::<u8>::empty());
    }
    assert(seps_then_words(seq![sp(), sp()], seq![a, nn]) =~= sp() + a + (sp() + nn + (Seq::<u8>::empty()))) by {
        assert(seq![sp(), sp()].drop_first() =~= seq![sp()]);
        assert(seq![a, nn].drop_first() =~= seq![nn]);
    }
    assert(seps_then_words(seq![Seq::<u8>::empty(), sp(), sp()], seq![word_the(), a, nn]) =~= Seq::<u8>::empty() + word_the() + (sp() + a + (sp() + nn + (Seq::<u8>::empty())))) by {
        assert(seq![Seq::<u8>::empty(), sp(), sp()].drop_first() =~= seq![sp(), sp()]);
        assert(seq![word_the(), a, nn].drop_first() =~= seq![a, nn]);
    }
    assert((Seq::<u8>::empty() + word_the() + (sp() + a + (sp() + nn + (Seq::<u8>::empty())))) =~= natural_bytes(a, nn));
    assert(seps_then_words(seps, toks) =~= natural_bytes(a, nn));
    lemma_tokenize_separated(seps, toks);
}

/// The words of the hyphenated rendering: the two content words.
proof fn lemma_hyphen_tokens(a: Seq<u8>, nn: Seq<u8>)
    requires
        word_bytes_ok(a),
        word_bytes_ok(nn),
    ensures
        tokenize(hyphen_bytes(a, nn)) == seq![a, nn],
{
    let toks = seq![a, nn];
    let seps = seq![Seq::<u8>::empty(), dash()];
    assert(seps_then_words(seq![dash()], seq![nn]) =~= dash() + nn + (Seq::<u8>::empty())) by {
        assert(seq![dash()].drop_first() =~= Seq::<Seq<u8>>::empty());
        assert(seq![nn].drop_first() =~= Seq::<Seq<u8>>::empty());
        assert(seps_then_words(Seq::<Seq<u8>>::empty(), Seq::<Seq<u8>>::empty()) == Seq::<u8>::empty());
    }
    assert(seps_then_words(seq![Seq::<u8>::empty(), dash()], seq![a, nn]) =~= Seq::<u8>::empty() + a + (dash() + nn + (Seq::<u8>::empty()))) by {
        assert(seq![Seq::<u8>::empty(), dash()].drop_first() =~= seq![dash()]);
        assert(seq![a, nn].drop_first() =~= seq![nn]);
    }
    assert((Seq::<u8>::empty() + a + (dash() + nn + (Seq::<u8>::empty()))) =~= hyphen_bytes(a, nn));
    assert(seps_then_words(seps, toks) =~= hyphen_bytes(a, nn));
    lemma_tokenize_separated(seps, toks);
}

/// Running the template over its own rendering's words.
proof fn lemma_parse_template(toks: Seq<Seq<u8>>, s: int)
    requires
        s == 0 || s == 1,
        toks.len() == 2 + s,
        (s == 1) == skip_set_match(SkipSet::Articles, toks[0]),
    ensures
        parse_plan(toks, plan_spec(), 0, seq![], 2) == Ok::<Seq<Seq<u8>>, ErrorView>(
            seq![toks[s], toks[s + 1]],
        ),
{
    let pl0 = plan_spec();
    let pl1 = seq![Step::Take, Step::Take];
    let pl2 = seq![Step::Take];
    let pl3 = Seq::<Step>::empty();
    assert(pl0.drop_first() =~= pl1);
    assert(pl1.drop_first() =~= pl2);
    assert(pl2.drop_first() =~= pl3);
    let t0 = Seq::<Seq<u8>>::empty();
    let t1 = seq![toks[s]];
    let t2 = seq![toks[s], toks[s + 1]];
    assert(t0.push(toks[s]) =~= t1);
    assert(t1.push(toks[s + 1]) =~= t2);
    assert(parse_plan(toks, pl0, 0, t0, 2) == parse_plan(toks, pl1, s, t0, 2));
    assert(parse_plan(toks, pl1, s, t0, 2) == parse_plan(toks, pl2, s + 1, t1, 2));
    assert(parse_plan(toks, pl2, s + 1, t1, 2) == parse_plan(toks, pl3, s + 2, t2, 2));
    assert(parse_plan(toks, pl3, s + 2, t2, 2) == Ok::<Seq<Seq<u8>>, ErrorView>(t2));
}

/// Round trip: decoding either rendering of an encoded identifier yields
/// that identifier again, for every 16-bit value.
pub proof fn lemma_round_trip(lex: Lexicon, p: AdjectiveNoun, n: u16)
    requires
        lex.wf(),
        p.wf(),
        p.encodes(lex, n),
    ensures
        decode_spec(lex, natural_bytes(ascii_seq(p.adjective@), ascii_seq(p.noun@))) == Ok::<
            u16,
            ErrorView,
        >(n),
        decode_spec(lex, hyphen_bytes(ascii_seq(p.adjective@), ascii_seq(p.noun@))) == Ok::<
            u16,
            ErrorView,
        >(n),
{
    lex.adjective.lemma_wf_len();
    lex.noun.lemma_wf_len();
    vstd::arithmetic::power2::lemma2_to64();
    let a = ascii_seq(p.adjective@);
    let nn = ascii_seq(p.noun@);
    let ai = (n as int) % 1024;
    let ni = ((n as int) / 1024) % 1024;
    crate::text::lemma_word_chars_bytes(p.adjective@);
    crate::text::lemma_word_chars_bytes(p.noun@);
    lemma_natural_tokens(a, nn);
    lemma_hyphen_tokens(a, nn);
    assert(skip_set_match(SkipSet::Articles, word_the())) by {
        assert(crate::ascii::low_seq(word_the()) =~= crate::ascii::low_seq(
            crate::mapper::filler_the(),
        ));
    }
    let toks_n = seq![word_the(), a, nn];
    let toks_h = seq![a, nn];
    lemma_parse_template(toks_n, 1);
    lemma_parse_template(toks_h, 0);
    let out = seq![a, nn];
    assert(seq![toks_n[1], toks_n[2]] =~= out);
    assert(seq![toks_h[0], toks_h[1]] =~= out);
    crate::mapper::lemma_dict_find_at(lex.noun@, nn, ni);
    crate::mapper::lemma_dict_find_at(lex.adjective@, a, ai);
    assert(ni == (n as int) / 1024) by {
        assert((n as int) / 1024 < 1024);
    }
    crate::mapper::lemma_stage(n as int, 1, 1024);
    assert(ni * 1024 + ai == n as int);
}

} // verus!
