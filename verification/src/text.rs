//! Tokenization of free text into words, and text building.
//!
//! A token is a maximal run of ASCII letters; every other byte is a
//! separator. `lemma_tokenize_separated` states the tolerance this buys:
//! the token list of a rendered phrase depends only on its words, not on
//! what punctuation or whitespace stands between them.

use vstd::prelude::*;
use vstd::string::StringSliceAdditionalSpecFns;

use crate::ascii::{ascii_seq, char_is_alpha, is_alpha, is_ascii_letter, word_chars_ok};
use crate::eytzinger::words_bytes;

verus! {

/// A word at byte level: nonempty, ASCII letters only.
pub open spec fn word_bytes_ok(w: Seq<u8>) -> bool {
    w.len() >= 1 && (forall|k: int| 0 <= k < w.len() ==> is_alpha(#[trigger] w[k]))
}

/// A separator run at byte level: no ASCII letter anywhere.
pub open spec fn sep_bytes_ok(p: Seq<u8>) -> bool {
    forall|k: int| 0 <= k < p.len() ==> !is_alpha(#[trigger] p[k])
}

/// Closes the token in progress, if one is open.
pub open spec fn tok_flush(ts: Seq<Seq<u8>>, cur: Seq<u8>) -> Seq<Seq<u8>> {
    if cur.len() > 0 {
        ts.push(cur)
    } else {
        ts
    }
}

/// Scans bytes left to right: letters extend the token in progress, any
/// other byte closes it.
pub open spec fn tok_fold(ts: Seq<Seq<u8>>, cur: Seq<u8>, s: Seq<u8>) -> (Seq<Seq<u8>>, Seq<u8>)
    decreases s.len(),
{
    if s.len() == 0 {
        (ts, cur)
    } else {
        if is_alpha(s[0]) {
            tok_fold(ts, cur.push(s[0]), s.drop_first())
        } else {
            tok_fold(tok_flush(ts, cur), seq![], s.drop_first())
        }
    }
}

/// The words of a byte string: its maximal runs of ASCII letters, in order.
pub open spec fn tokenize(s: Seq<u8>) -> Seq<Seq<u8>> {
    let r = tok_fold(seq![], seq![], s);
    tok_flush(r.0, r.1)
}

/// Scanning a concatenation scans its parts in turn.
pub proof fn lemma_tok_fold_app(ts: Seq<Seq<u8>>, cur: Seq<u8>, a: Seq<u8>, b: Seq<u8>)
    ensures
        tok_fold(ts, cur, a + b) == tok_fold(tok_fold(ts, cur, a).0, tok_fold(ts, cur, a).1, b),
    decreases a.len(),
{
    if a.len() == 0 {
        assert(a + b =~= b);
    } else {
        assert((a + b)[0] == a[0]);
        assert((a + b).drop_first() =~= a.drop_first() + b);
        if is_alpha(a[0]) {
            lemma_tok_fold_app(ts, cur.push(a[0]), a.drop_first(), b);
        } else {
            lemma_tok_fold_app(tok_flush(ts, cur), seq![], a.drop_first(), b);
        }
    }
}

/// Scanning a run of letters extends the token in progress by it.
pub proof fn lemma_tok_fold_word(ts: Seq<Seq<u8>>, cur: Seq<u8>, w: Seq<u8>)
    requires
        forall|k: int| 0 <= k < w.len() ==> is_alpha(#[trigger] w[k]),
    ensures
        tok_fold(ts, cur, w) == (ts, cur + w),
    decreases w.len(),
{
    if w.len() == 0 {
        assert(cur + w =~= cur);
    } else {
        lemma_tok_fold_word(ts, cur.push(w[0]), w.drop_first());
        assert(cur.push(w[0]) + w.drop_first() =~= cur + w);
    }
}

/// Scanning a nonempty separator run closes the token in progress.
pub proof fn lemma_tok_fold_sep(ts: Seq<Seq<u8>>, cur: Seq<u8>, p: Seq<u8>)
    requires
        p.len() >= 1,
        sep_bytes_ok(p),
    ensures
        tok_fold(ts, cur, p) == (tok_flush(ts, cur), Seq::<u8>::empty()),
    decreases p.len(),
{
    if p.len() == 1 {
        assert(tok_fold(tok_flush(ts, cur), seq![], p.drop_first()) == (
            tok_flush(ts, cur),
            Seq::<u8>::empty(),
        ));
    } else {
        lemma_tok_fold_sep(tok_flush(ts, cur), seq![], p.drop_first());
    }
}

/// Words joined by separators: `seps[0] + ws[0] + seps[1] + ws[1] + ...`,
/// ending with the last word.
pub open spec fn seps_then_words(seps: Seq<Seq<u8>>, ws: Seq<Seq<u8>>) -> Seq<u8>
    decreases ws.len(),
{
    if ws.len() == 0 {
        seq![]
    } else {
        seps[0] + ws[0] + seps_then_words(seps.drop_first(), ws.drop_first())
    }
}

/// Joining splits over any cut of the word list.
pub proof fn lemma_stw_split(seps: Seq<Seq<u8>>, ws: Seq<Seq<u8>>, m: int)
    requires
        0 <= m <= ws.len(),
        seps.len() == ws.len(),
    ensures
        seps_then_words(seps, ws) == seps_then_words(seps.take(m), ws.take(m)) + seps_then_words(
            seps.skip(m),
            ws.skip(m),
        ),
    decreases m,
{
    if m == 0 {
        assert(ws.take(0) =~= Seq::<Seq<u8>>::empty());
        assert(seps.take(0) =~= Seq::<Seq<u8>>::empty());
        assert(seps.skip(0) =~= seps);
        assert(ws.skip(0) =~= ws);
        assert(seps_then_words(seps.take(0), ws.take(0)) == Seq::<u8>::empty());
        assert(Seq::<u8>::empty() + seps_then_words(seps, ws) =~= seps_then_words(seps, ws));
    } else {
        let s1 = seps.drop_first();
        let w1 = ws.drop_first();
        lemma_stw_split(s1, w1, m - 1);
        assert(seps.take(m).drop_first() =~= s1.take(m - 1));
        assert(ws.take(m).drop_first() =~= w1.take(m - 1));
        assert(seps.skip(m) =~= s1.skip(m - 1));
        assert(ws.skip(m) =~= w1.skip(m - 1));
        assert(seps.take(m)[0] == seps[0]);
        assert(ws.take(m)[0] == ws[0]);
        assert(seps_then_words(seps.take(m), ws.take(m)) == seps[0] + ws[0] + seps_then_words(
            s1.take(m - 1),
            w1.take(m - 1),
        ));
        assert(seps[0] + ws[0] + (seps_then_words(s1.take(m - 1), w1.take(m - 1))
            + seps_then_words(s1.skip(m - 1), w1.skip(m - 1))) =~= (seps[0] + ws[0]
            + seps_then_words(s1.take(m - 1), w1.take(m - 1))) + seps_then_words(
            s1.skip(m - 1),
            w1.skip(m - 1),
        ));
    }
}

proof fn lemma_fold_seps_then_words(ts: Seq<Seq<u8>>, seps: Seq<Seq<u8>>, ws: Seq<Seq<u8>>)
    requires
        ws.len() >= 1,
        seps.len() == ws.len(),
        forall|i: int| 0 <= i < ws.len() ==> word_bytes_ok(#[trigger] ws[i]),
        forall|i: int| 0 <= i < seps.len() ==> sep_bytes_ok(#[trigger] seps[i]),
        forall|i: int| 1 <= i < seps.len() ==> (#[trigger] seps[i]).len() >= 1,
    ensures
        tok_fold(ts, seq![], seps_then_words(seps, ws)) == (ts + ws.drop_last(), ws.last()),
    decreases ws.len(),
{
    let text = seps_then_words(seps, ws);
    let head = seps[0] + ws[0];
    let rest = seps_then_words(seps.drop_first(), ws.drop_first());
    assert(text == head + rest);
    lemma_tok_fold_app(ts, seq![], head, rest);
    lemma_tok_fold_app(ts, seq![], seps[0], ws[0]);
    assert(head =~= seps[0] + ws[0]);
    if seps[0].len() == 0 {
        assert(seps[0] + ws[0] =~= ws[0]);
        lemma_tok_fold_word(ts, seq![], ws[0]);
        assert(seq![] + ws[0] =~= ws[0]);
        assert(tok_fold(ts, seq![], head) == (ts, ws[0]));
    } else {
        lemma_tok_fold_sep(ts, seq![], seps[0]);
        lemma_tok_fold_word(ts, seq![], ws[0]);
        assert(Seq::<u8>::empty() + ws[0] =~= ws[0]);
        assert(tok_fold(ts, seq![], head) == (ts, ws[0]));
    }
    if ws.len() == 1 {
        lemma_tok_fold_word(ts, seq![], ws[0]);
        assert(rest =~= Seq::<u8>::empty());
        assert(tok_fold(ts, seq![], text) == (ts, ws[0]));
        assert(ts + ws.drop_last() =~= ts);
        assert(ws.last() == ws[0]);
    } else {
        // the next separator is nonempty and closes `ws[0]`
        let seps1 = seps.drop_first();
        let ws1 = ws.drop_first();
        let rest_head = seps1[0] + ws1[0];
        let rest_rest = seps_then_words(seps1.drop_first(), ws1.drop_first());
        assert(rest == rest_head + rest_rest);
        lemma_tok_fold_app(ts, ws[0], rest_head, rest_rest);
        lemma_tok_fold_app(ts, ws[0], seps1[0], ws1[0]);
        lemma_tok_fold_sep(ts, ws[0], seps1[0]);
        lemma_tok_fold_word(ts.push(ws[0]), seq![], ws1[0]);
        assert(Seq::<u8>::empty() + ws1[0] =~= ws1[0]);
        assert(tok_fold(ts, ws[0], rest_head) == (ts.push(ws[0]), ws1[0]));
        // fold of rest_rest from that state equals the inductive call's tail
        lemma_fold_seps_then_words(ts.push(ws[0]), seps1, ws1);
        lemma_tok_fold_app(ts.push(ws[0]), seq![], rest_head, rest_rest);
        lemma_tok_fold_app(ts.push(ws[0]), seq![], seps1[0], ws1[0]);
        lemma_tok_fold_sep(ts.push(ws[0]), seq![], seps1[0]);
        lemma_tok_fold_word(ts.push(ws[0]), seq![], ws1[0]);
        assert(tok_fold(ts.push(ws[0]), seq![], rest_head) == (ts.push(ws[0]), ws1[0]));
        assert(tok_fold(ts, ws[0], rest) == tok_fold(ts.push(ws[0]), seq![], rest));
        assert(ts.push(ws[0]) + ws1.drop_last() =~= ts + ws.drop_last());
        assert(ws1.last() == ws.last());
    }
}

/// Separator tolerance: the words of a text made of given words joined by
/// arbitrary non-alphabetic separator runs are exactly those words, whatever
/// the separators. Decoding starts from `tokenize`, so inserting or changing
/// separators between words never changes what is decoded.
pub proof fn lemma_tokenize_separated(seps: Seq<Seq<u8>>, ws: Seq<Seq<u8>>)
    requires
        ws.len() >= 1,
        seps.len() == ws.len(),
        forall|i: int| 0 <= i < ws.len() ==> word_bytes_ok(#[trigger] ws[i]),
        forall|i: int| 0 <= i < seps.len() ==> sep_bytes_ok(#[trigger] seps[i]),
        forall|i: int| 1 <= i < seps.len() ==> (#[trigger] seps[i]).len() >= 1,
    ensures
        tokenize(seps_then_words(seps, ws)) == ws,
{
    lemma_fold_seps_then_words(seq![], seps, ws);
    assert(seq![] + ws.drop_last() =~= ws.drop_last());
    assert(ws.drop_last().push(ws.last()) =~= ws);
}

/// An all-letters character string has all-letters bytes.
pub proof fn lemma_word_chars_bytes(s: Seq<char>)
    requires
        word_chars_ok(s),
    ensures
        word_bytes_ok(ascii_seq(s)),
{
    assert forall|k: int| 0 <= k < s.len() implies is_alpha(#[trigger] ascii_seq(s)[k]) by {
        assert(char_is_alpha(s[k]));
    }
}

/// Turns ASCII bytes into the string with those characters.
///
/// Relies on `String::from_utf8`: bytes below 128 are valid UTF-8 and decode
/// one character per byte, each the character with that code.
#[verifier::external_body]
pub(crate) fn ascii_to_string(v: Vec<u8>) -> (r: String)
    requires
        forall|i: int| 0 <= i < v@.len() ==> v@[i] < 128,
    ensures
        r@.len() == v@.len(),
        forall|i: int| 0 <= i < v@.len() ==> r@[i] == #[trigger] v@[i] as char,
{
    match String::from_utf8(v) {
        Ok(s) => s,
        Err(_) => String::new(),
    }
}

/// Splits text into its words: the maximal runs of ASCII letters.
pub fn string_to_words(s: &str) -> (r: Vec<String>)
    ensures
        words_bytes(r@) == tokenize(s.spec_bytes()),
        forall|i: int| 0 <= i < r@.len() ==> word_chars_ok(#[trigger] r@[i]@),
{
    let bytes: &[u8] = s.as_bytes();
    let n = bytes.len();
    let mut toks: Vec<String> = Vec::new();
    let mut cur: Vec<u8> = Vec::new();
    let mut i: usize = 0;
    proof {
        assert(bytes@.take(0) =~= Seq::<u8>::empty());
    }
    while i < n
        invariant
            bytes@ == s.spec_bytes(),
            n == bytes@.len(),
            i <= n,
            tok_fold(seq![], seq![], bytes@.take(i as int)) == (words_bytes(toks@), cur@),
            forall|k: int| 0 <= k < toks@.len() ==> word_chars_ok(#[trigger] toks@[k]@),
            forall|k: int| 0 <= k < cur@.len() ==> is_alpha(#[trigger] cur@[k]),
        decreases n - i,
    {
        let b = bytes[i];
        proof {
            let ts0 = words_bytes(toks@);
            let c0 = cur@;
            assert(bytes@.take(i as int + 1) =~= bytes@.take(i as int) + seq![b]);
            lemma_tok_fold_app(seq![], seq![], bytes@.take(i as int), seq![b]);
            assert(seq![b].drop_first() =~= Seq::<u8>::empty());
            if is_alpha(b) {
                assert(tok_fold(ts0, c0.push(b), Seq::<u8>::empty()) == (ts0, c0.push(b)));
                assert(tok_fold(ts0, c0, seq![b]) == (ts0, c0.push(b)));
            } else {
                assert(tok_fold(tok_flush(ts0, c0), seq![], Seq::<u8>::empty()) == (
                    tok_flush(ts0, c0),
                    Seq::<u8>::empty(),
                ));
                assert(tok_fold(ts0, c0, seq![b]) == (tok_flush(ts0, c0), Seq::<u8>::empty()));
            }
        }
        if is_ascii_letter(b) {
            cur.push(b);
        } else {
            if cur.len() > 0 {
                let ghost curg = cur@;
                let ghost toksg = toks@;
                let w = ascii_to_string(cur);
                proof {
                    assert forall|k: int| 0 <= k < w@.len() implies char_is_alpha(
                        #[trigger] w@[k],
                    ) by {
                        assert(w@[k] == curg[k] as char);
                        assert(is_alpha(curg[k]));
                    }
                    assert(ascii_seq(w@) =~= curg);
                }
                toks.push(w);
                proof {
                    assert(words_bytes(toks@) =~= words_bytes(toksg).push(curg));
                }
                cur = Vec::new();
                proof {
                    assert(cur@ =~= Seq::<u8>::empty());
                }
            }
        }
        i = i + 1;
    }
    proof {
        assert(bytes@.take(n as int) =~= bytes@);
    }
    if cur.len() > 0 {
        let ghost curg = cur@;
        let ghost toksg = toks@;
        let w = ascii_to_string(cur);
        proof {
            assert forall|k: int| 0 <= k < w@.len() implies char_is_alpha(#[trigger] w@[k]) by {
                assert(w@[k] == curg[k] as char);
                assert(is_alpha(curg[k]));
            }
            assert(ascii_seq(w@) =~= curg);
        }
        toks.push(w);
        proof {
            assert(words_bytes(toks@) =~= words_bytes(toksg).push(curg));
        }
    }
    toks
}

/// Appends the bytes of an ASCII string.
pub(crate) fn push_str_bytes(buf: &mut Vec<u8>, s: &str)
    requires
        vstd::string::is_ascii(s),
    ensures
        final(buf)@ == old(buf)@ + ascii_seq(s@),
{
    let n = s.unicode_len();
    let mut k: usize = 0;
    while k < n
        invariant
            vstd::string::is_ascii(s),
            n == s@.len(),
            k <= n,
            buf@ == old(buf)@ + ascii_seq(s@).take(k as int),
        decreases n - k,
    {
        let b = s.get_ascii(k);
        buf.push(b);
        proof {
            assert(buf@ =~= old(buf)@ + ascii_seq(s@).take(k as int + 1));
        }
        k = k + 1;
    }
    proof {
        assert(old(buf)@ + ascii_seq(s@).take(n as int) =~= old(buf)@ + ascii_seq(s@));
    }
}

/// Appends the bytes of a word.
pub(crate) fn push_word_bytes(buf: &mut Vec<u8>, w: &String)
    requires
        word_chars_ok(w@),
    ensures
        final(buf)@ == old(buf)@ + ascii_seq(w@),
{
    let st: &str = w.as_str();
    proof {
        assert forall|k: int| 0 <= k < st@.len() implies '\0' <= #[trigger] st@[k] <= '\u{7f}' by {
            assert(char_is_alpha(st@[k]));
        }
    }
    push_str_bytes(buf, st);
}

/// Maps a lower-case ASCII letter to its upper-case form; anything else is
/// unchanged.
pub open spec fn upper(b: u8) -> u8 {
    if 97 <= b && b <= 122 {
        (b - 32) as u8
    } else {
        b
    }
}

/// A word with its first letter capitalized.
pub open spec fn cap_bytes(w: Seq<u8>) -> Seq<u8> {
    if w.len() == 0 {
        w
    } else {
        seq![upper(w[0])] + w.drop_first()
    }
}

/// Capitalizing changes neither the word's length, its being a word, nor its
/// lower-cased form.
pub proof fn lemma_cap_bytes(w: Seq<u8>)
    requires
        word_bytes_ok(w),
    ensures
        word_bytes_ok(cap_bytes(w)),
        crate::ascii::low_seq(cap_bytes(w)) == crate::ascii::low_seq(w),
        crate::ascii::eq_ic(cap_bytes(w), w),
{
    let c = cap_bytes(w);
    assert(c.len() == w.len());
    assert forall|k: int| 0 <= k < c.len() implies is_alpha(#[trigger] c[k]) by {
        if k == 0 {
            assert(is_alpha(w[0]));
        } else {
            assert(c[k] == w[k]);
        }
    }
    assert(crate::ascii::low_seq(c) =~= crate::ascii::low_seq(w)) by {
        assert forall|k: int| 0 <= k < w.len() implies crate::ascii::low(c[k]) == crate::ascii::low(
            w[k],
        ) by {
            if k == 0 {
            } else {
                assert(c[k] == w[k]);
            }
        }
    }
}

/// Appends a word with its first letter capitalized.
pub(crate) fn push_cap_word(buf: &mut Vec<u8>, w: &String)
    requires
        word_chars_ok(w@),
    ensures
        final(buf)@ == old(buf)@ + cap_bytes(ascii_seq(w@)),
{
    let st: &str = w.as_str();
    proof {
        assert forall|k: int| 0 <= k < st@.len() implies '\0' <= #[trigger] st@[k] <= '\u{7f}' by {
            assert(char_is_alpha(st@[k]));
        }
    }
    let n = st.unicode_len();
    let b0 = st.get_ascii(0);
    let up = if 97 <= b0 && b0 <= 122 {
        b0 - 32
    } else {
        b0
    };
    buf.push(up);
    let mut k: usize = 1;
    while k < n
        invariant
            vstd::string::is_ascii(st),
            word_chars_ok(st@),
            st@ == w@,
            n == st@.len(),
            1 <= k <= n,
            buf@ == old(buf)@ + cap_bytes(ascii_seq(w@)).take(k as int),
        decreases n - k,
    {
        let b = st.get_ascii(k);
        buf.push(b);
        proof {
            assert(cap_bytes(ascii_seq(w@))[k as int] == ascii_seq(w@)[k as int]);
            assert(buf@ =~= old(buf)@ + cap_bytes(ascii_seq(w@)).take(k as int + 1));
        }
        k = k + 1;
    }
    proof {
        assert(old(buf)@ + cap_bytes(ascii_seq(w@)).take(n as int) =~= old(buf)@ + cap_bytes(
            ascii_seq(w@),
        ));
    }
}

/// The decimal digits of `n`, most significant first.
pub open spec fn dec_digits(n: nat) -> Seq<u8>
    decreases n,
{
    if n < 10 {
        seq![(48 + n) as u8]
    } else {
        dec_digits(n / 10).push((48 + n % 10) as u8)
    }
}

/// Renders a count in decimal.
pub fn usize_to_string(n: usize) -> (r: String)
    ensures
        ascii_seq(r@) == dec_digits(n as nat),
        r@.len() == dec_digits(n as nat).len(),
        vstd::utf8::is_ascii_chars(r@),
{
    let mut rev: Vec<u8> = Vec::new();
    let mut x = n;
    while x >= 10
        invariant
            dec_digits(n as nat) =~= dec_digits(x as nat) + rev@.reverse(),
            forall|k: int| 0 <= k < rev@.len() ==> 48 <= #[trigger] rev@[k] < 58,
        decreases x,
    {
        let d = (48 + (x % 10)) as u8;
        proof {
            assert((rev@.push(d)).reverse() =~= seq![d] + rev@.reverse());
            assert(dec_digits(x as nat) =~= dec_digits((x / 10) as nat) + seq![d]);
            assert(dec_digits((x / 10) as nat) + (rev@.push(d)).reverse() =~= dec_digits(
                (x / 10) as nat,
            ) + seq![d] + rev@.reverse());
        }
        rev.push(d);
        x = x / 10;
    }
    let d0 = (48 + x) as u8;
    proof {
        assert((rev@.push(d0)).reverse() =~= seq![d0] + rev@.reverse());
        assert(dec_digits(x as nat) =~= seq![d0]);
    }
    rev.push(d0);
    let ghost digits = rev@.reverse();
    let mut out: Vec<u8> = Vec::new();
    let m = rev.len();
    let mut k: usize = 0;
    while k < m
        invariant
            m == rev@.len(),
            k <= m,
            digits == rev@.reverse(),
            out@ =~= digits.take(k as int),
            forall|j: int| 0 <= j < rev@.len() ==> 48 <= #[trigger] rev@[j] < 58,
        decreases m - k,
    {
        out.push(rev[m - 1 - k]);
        proof {
            assert(out@ =~= digits.take(k as int + 1));
        }
        k = k + 1;
    }
    proof {
        assert(out@ =~= digits);
    }
    let ghost outg = out@;
    let r = ascii_to_string(out);
    proof {
        assert(ascii_seq(r@) =~= outg);
        assert(dec_digits(n as nat) =~= digits);
        assert forall|i: int| 0 <= i < r@.len() implies '\0' <= #[trigger] r@[i] <= '\u{7f}' by {
            assert(r@[i] == outg[i] as char);
        }
    }
    r
}

} // verus!
