//! The word mapper: one dictionary plus the bit-composition operations.
//!
//! A mapper over a dictionary of `2^b` words turns the low `b` bits of an
//! accumulator into a word and shifts them out (encode), or looks a word up
//! and shifts its index back in (decode). Multi-word draws repeat this; the
//! no-repeat draws confine each position to its own block of the index space
//! so that the drawn words can never coincide.

use vstd::prelude::*;
use vstd::arithmetic::div_mod::{lemma_div_denominator, lemma_fundamental_div_mod};
use vstd::arithmetic::power::{lemma_pow0, lemma_pow1, lemma_pow_adds, lemma_pow_positive, pow};
use vstd::arithmetic::power2::{lemma2_to64_rest, 
    lemma2_to64, lemma_pow2_adds, lemma_pow2_pos, lemma_pow2_strictly_increases, pow2,
};
use vstd::string::StringSliceAdditionalSpecFns;

use crate::ascii::{ascii_seq, char_is_alpha, eq_ic, word_chars_ok};
use crate::eytzinger::{
    bst_ordered, check_bst, eytzinger_search, lemma_match_unique, words_bytes, words_chars_ok,
};

verus! {

/// The article "a", as bytes.
pub open spec fn filler_a() -> Seq<u8> {
    seq![97u8]
}

/// The article "the", as bytes.
pub open spec fn filler_the() -> Seq<u8> {
    seq![116u8, 104u8, 101u8]
}

/// The conjunction "and", as bytes.
pub open spec fn filler_and() -> Seq<u8> {
    seq![97u8, 110u8, 100u8]
}

/// The conjunction "that", as bytes.
pub open spec fn filler_that() -> Seq<u8> {
    seq![116u8, 104u8, 97u8, 116u8]
}

/// No dictionary entry may collide with a filler word of the phrase
/// templates, or parsing a phrase could skip a content word.
pub open spec fn no_fillers(d: Seq<Seq<u8>>) -> bool {
    forall|i: int|
        0 <= i < d.len() ==> !eq_ic(#[trigger] d[i], filler_a()) && !eq_ic(d[i], filler_the())
            && !eq_ic(d[i], filler_and()) && !eq_ic(d[i], filler_that())
}

/// The UTF-8 bytes of a character string.
pub open spec fn string_bytes(s: Seq<char>) -> Seq<u8> {
    vstd::utf8::encode_utf8(s)
}

/// The byte strings of a list of strings, as UTF-8.
pub open spec fn strs_bytes(ws: Seq<String>) -> Seq<Seq<u8>> {
    Seq::new(ws.len(), |i: int| string_bytes(ws[i]@))
}

/// The position of the unique case-insensitive match of `w` in `d`, if any.
pub open spec fn dict_find(d: Seq<Seq<u8>>, w: Seq<u8>) -> Option<int> {
    if exists|i: int| 0 <= i < d.len() && eq_ic(#[trigger] d[i], w) {
        Some(choose|i: int| 0 <= i < d.len() && eq_ic(#[trigger] d[i], w))
    } else {
        None
    }
}

/// In a well-ordered dictionary, a match at `t` makes `dict_find` return `t`.
pub proof fn lemma_dict_find_at(d: Seq<Seq<u8>>, w: Seq<u8>, t: int)
    requires
        bst_ordered(d),
        0 <= t < d.len(),
        eq_ic(d[t], w),
    ensures
        dict_find(d, w) == Some(t),
{
    let i = choose|i: int| 0 <= i < d.len() && eq_ic(#[trigger] d[i], w);
    lemma_match_unique(d, w, i, t);
}

/// One decode stage undoes one encode stage: shifting the next `p`-sized
/// digit of `x / d` into the accumulator `x / (d * p)` recovers `x / d`.
pub proof fn lemma_stage(x: int, d: int, p: int)
    requires
        x >= 0,
        d >= 1,
        p >= 1,
    ensures
        (x / (d * p)) * p + (x / d) % p == x / d,
{
    lemma_div_denominator(x, d, p);
    lemma_fundamental_div_mod(x / d, p);
}

/// A found index lies inside the dictionary.
pub proof fn lemma_dict_find_range(d: Seq<Seq<u8>>, w: Seq<u8>)
    ensures
        match dict_find(d, w) {
            Some(i) => 0 <= i < d.len(),
            None => true,
        },
{
}

/// The exponent of the least power of two at or above `n`.
pub open spec fn norep_exp(n: nat) -> nat
    decreases n,
{
    if n <= 1 {
        0
    } else {
        (1 + norep_exp(((n + 1) / 2) as nat)) as nat
    }
}

/// The least power of two at or above `n` is indeed at or above `n`.
pub proof fn lemma_norep_exp_bound(n: nat)
    ensures
        pow2(norep_exp(n)) >= n,
    decreases n,
{
    lemma2_to64();
    if n > 1 {
        let h = ((n + 1) / 2) as nat;
        lemma_norep_exp_bound(h);
        lemma_pow2_adds(1, norep_exp(h));
    }
}

/// Values below `h` scaled by `l` and offset by less than `l` stay below `h * l`.
proof fn lemma_scale_bound(v: int, l: int, h: int)
    requires
        l >= 1,
        0 <= v < h,
    ensures
        v * l + (l - 1) <= h * l - 1,
{
    assert(v * l + l <= h * l) by (nonlinear_arith)
        requires
            l >= 1,
            v < h,
    ;
}

proof fn lemma_pow2_128()
    ensures
        pow2(128) == 0x1_0000_0000_0000_0000_0000_0000_0000_0000,
{
    lemma2_to64();
    lemma_pow2_adds(64, 64);
}

/// The index the `i`-th repeatable draw takes from an accumulator, over a
/// dictionary of `l` words.
pub open spec fn plain_index(l: int, i: int, bits: int) -> int {
    (bits / pow(l, i as nat)) % l
}

/// The index the `i`-th no-repeat draw takes: its block offset plus the start
/// of block `i`, each block holding `bp` words.
pub open spec fn norep_index(bp: int, i: int, bits: int) -> int {
    (bits / pow(bp, i as nat)) % bp + i * bp
}

/// Decoding a word list over dictionary `d`: each word's index is shifted
/// into the accumulator in order; the first unknown word fails with its
/// position.
pub open spec fn decode_words_spec(d: Seq<Seq<u8>>, ws: Seq<Seq<u8>>, acc: int) -> Result<
    int,
    int,
> {
    decode_words_spec_rec(d, ws, acc)
}

pub open spec fn decode_words_spec_rec(d: Seq<Seq<u8>>, ws: Seq<Seq<u8>>, acc: int) -> Result<
    int,
    int,
>
    decreases ws.len(),
{
    if ws.len() == 0 {
        Ok(acc)
    } else {
        match dict_find(d, ws[0]) {
            None => Err(0),
            Some(idx) => match decode_words_spec_rec(d, ws.drop_first(), acc * d.len() + idx) {
                Ok(v) => Ok(v),
                Err(e) => Err(e + 1),
            },
        }
    }
}

/// Decoding a no-repeat word list: only the within-block offset of each
/// found index carries information, the block number is fixed by position.
pub open spec fn decode_norep_spec(
    d: Seq<Seq<u8>>,
    ws: Seq<Seq<u8>>,
    acc: int,
    bp: int,
) -> Result<int, int>
    decreases ws.len(),
{
    if ws.len() == 0 {
        Ok(acc)
    } else {
        match dict_find(d, ws[0]) {
            None => Err(0),
            Some(idx) => match decode_norep_spec(d, ws.drop_first(), acc * bp + idx % bp, bp) {
                Ok(v) => Ok(v),
                Err(e) => Err(e + 1),
            },
        }
    }
}

/// Builds the filler word "a" as bytes.
pub fn filler_a_vec() -> (v: Vec<u8>)
    ensures
        v@ == filler_a(),
{
    let mut v: Vec<u8> = Vec::new();
    v.push(97);
    proof {
        assert(v@ =~= filler_a());
    }
    v
}

/// Builds the filler word "the" as bytes.
pub fn filler_the_vec() -> (v: Vec<u8>)
    ensures
        v@ == filler_the(),
{
    let mut v: Vec<u8> = Vec::new();
    v.push(116);
    v.push(104);
    v.push(101);
    proof {
        assert(v@ =~= filler_the());
    }
    v
}

/// Builds the filler word "and" as bytes.
pub fn filler_and_vec() -> (v: Vec<u8>)
    ensures
        v@ == filler_and(),
{
    let mut v: Vec<u8> = Vec::new();
    v.push(97);
    v.push(110);
    v.push(100);
    proof {
        assert(v@ =~= filler_and());
    }
    v
}

/// Builds the filler word "that" as bytes.
pub fn filler_that_vec() -> (v: Vec<u8>)
    ensures
        v@ == filler_that(),
{
    let mut v: Vec<u8> = Vec::new();
    v.push(116);
    v.push(104);
    v.push(97);
    v.push(116);
    proof {
        assert(v@ =~= filler_that());
    }
    v
}

/// A dictionary in Eytzinger order together with the number of bits one draw
/// from it consumes.
pub struct WordMapper {
    pub words: Vec<String>,
    pub bit_count: u32,
}

impl View for WordMapper {
    type V = Seq<Seq<u8>>;

    open spec fn view(&self) -> Seq<Seq<u8>> {
        words_bytes(self.words@)
    }
}

impl WordMapper {
    /// A valid mapper: every entry a word, search-tree ordered, free of
    /// filler words, with a power-of-two length.
    pub open spec fn wf(&self) -> bool {
        &&& words_chars_ok(self.words@)
        &&& bst_ordered(self@)
        &&& no_fillers(self@)
        &&& 1 <= self.bit_count <= 27
        &&& self.words@.len() == pow2(self.bit_count as nat)
    }

    /// The dictionary length, usable in bounds reasoning.
    pub open spec fn spec_len(&self) -> int {
        self.words@.len() as int
    }

    pub proof fn lemma_wf_len(&self)
        requires
            self.wf(),
        ensures
            2 <= self.spec_len() < 0x1000_0000,
            self.spec_len() == pow2(self.bit_count as nat),
    {
        lemma2_to64();
        lemma_pow2_strictly_increases(0, self.bit_count as nat);
        if (self.bit_count as nat) < 28 {
            lemma_pow2_strictly_increases(self.bit_count as nat, 28);
        }
    }

    /// Checks a word list and wraps it as a mapper; refuses lists whose
    /// length is not a power of two, entries that are not plain words or
    /// that collide with a filler, and lists out of search-tree order.
    pub fn new(words: Vec<String>) -> (r: Option<WordMapper>)
        requires
            words.len() < 0x1000_0000,
        ensures
            match r {
                Some(m) => m.wf() && m.words@ == words@,
                None => !(words_chars_ok(words@) && bst_ordered(words_bytes(words@)) && no_fillers(
                    words_bytes(words@),
                ) && exists|b: nat| 1 <= b <= 27 && words@.len() == pow2(b)),
            },
    {
        let n = words.len();
        let bit_count = match log2_exact(n) {
            None => {
                proof {
                    assert forall|b: nat| !(1 <= b <= 27 && words@.len() == pow2(b)) by {}
                }
                return None;
            },
            Some(b) => b,
        };
        if bit_count < 1 || bit_count > 27 {
            proof {
                assert forall|b: nat| !(1 <= b <= 27 && words@.len() == pow2(b)) by {
                    if 1 <= b <= 27 && words@.len() == pow2(b) {
                        if b < bit_count as nat {
                            lemma_pow2_strictly_increases(b, bit_count as nat);
                        }
                        if b > bit_count as nat {
                            lemma_pow2_strictly_increases(bit_count as nat, b);
                        }
                    }
                }
            }
            return None;
        }
        if !check_words(&words) {
            return None;
        }
        if !check_no_fillers(&words) {
            return None;
        }
        if !check_bst(&words) {
            return None;
        }
        Some(WordMapper { words, bit_count })
    }

    /// The number of integer bits one draw from this mapper consumes.
    pub fn bits(&self) -> (r: u32)
        ensures
            r == self.bit_count,
    {
        self.bit_count
    }

    /// The mask selecting the bits of one draw.
    pub fn bit_mask(&self) -> (r: usize)
        requires
            self.wf(),
        ensures
            r == self.spec_len() - 1,
    {
        proof {
            self.lemma_wf_len();
        }
        self.words.len() - 1
    }

    /// Draws one word: the low bits pick the entry, the rest remain.
    pub fn encode_word(&self, bits: u128) -> (r: (String, u128))
        requires
            self.wf(),
        ensures
            r.0@ == self.words@[(bits as int) % self.spec_len()]@,
            word_chars_ok(r.0@),
            r.1 == (bits as int) / self.spec_len(),
    {
        proof {
            self.lemma_wf_len();
        }
        let len = self.words.len();
        let idx = (bits % (len as u128)) as usize;
        let word = self.words[idx].clone();
        (word, bits / (len as u128))
    }

    /// Looks one word up and shifts its index into the accumulator; fails
    /// when the word is not in the dictionary.
    pub fn decode_word(&self, word: &str, bits: u128) -> (r: Option<u128>)
        requires
            self.wf(),
            (bits as int) < pow2((128 - self.bit_count) as nat),
        ensures
            r == match dict_find(self@, word.spec_bytes()) {
                None => None::<u128>,
                Some(idx) => Some(((bits as int) * self.spec_len() + idx) as u128),
            },
    {
        proof {
            self.lemma_wf_len();
        }
        match eytzinger_search(&self.words, word) {
            None => None,
            Some(i) => {
                proof {
                    lemma_dict_find_at(self@, word.spec_bytes(), i as int);
                    lemma_pow2_adds((128 - self.bit_count) as nat, self.bit_count as nat);
                    lemma_pow2_128();
                    lemma_scale_bound(
                        bits as int,
                        self.spec_len(),
                        pow2((128 - self.bit_count) as nat) as int,
                    );
                }
                Some(bits * (self.words.len() as u128) + (i as u128))
            },
        }
    }

    /// Draws `count` words, low bits first; words may repeat.
    pub fn encode_words(&self, count: usize, bits: u128) -> (r: (Vec<String>, u128))
        requires
            self.wf(),
        ensures
            r.0@.len() == count,
            forall|i: int|
                0 <= i < count ==> r.0@[i]@ == self.words@[plain_index(
                    self.spec_len(),
                    i,
                    bits as int,
                )]@ && word_chars_ok(#[trigger] r.0@[i]@),
            r.1 == (bits as int) / pow(self.spec_len(), count as nat),
    {
        proof {
            self.lemma_wf_len();
        }
        let len = self.words.len();
        let mut out: Vec<String> = Vec::new();
        let mut acc = bits;
        let mut i: usize = 0;
        proof {
            assert(pow(self.spec_len(), 0) == 1) by {
                lemma_pow0(self.spec_len());
            }
        }
        while i < count
            invariant
                self.wf(),
                2 <= self.spec_len() < 0x1000_0000,
                len == self.spec_len(),
                i <= count,
                out@.len() == i,
                acc == (bits as int) / pow(self.spec_len(), i as nat),
                forall|k: int|
                    0 <= k < i ==> out@[k]@ == self.words@[plain_index(
                        self.spec_len(),
                        k,
                        bits as int,
                    )]@ && word_chars_ok(#[trigger] out@[k]@),
            decreases count - i,
        {
            let idx = (acc % (len as u128)) as usize;
            out.push(self.words[idx].clone());
            proof {
                let l = self.spec_len();
                lemma_pow_positive(l, i as nat);
                lemma_pow_adds(l, i as nat, 1);
                lemma_pow1(l);
                lemma_div_denominator(bits as int, pow(l, i as nat), l);
            }
            acc = acc / (len as u128);
            i = i + 1;
        }
        (out, acc)
    }

    /// Draws `count` words from disjoint index blocks, so no two positions
    /// can yield the same word; each draw consumes fewer bits, the block
    /// number being fixed by the position.
    pub fn encode_words_norepeat(&self, count: usize, bits: u128) -> (r: (Vec<String>, u128))
        requires
            self.wf(),
            1 <= count <= 0x1000_0000,
            norep_exp(count as nat) < self.bit_count,
        ensures
            r.0@.len() == count,
            forall|i: int|
                0 <= i < count ==> r.0@[i]@ == self.words@[norep_index(
                    pow2((self.bit_count - norep_exp(count as nat)) as nat) as int,
                    i,
                    bits as int,
                )]@ && word_chars_ok(#[trigger] r.0@[i]@),
            r.1 == (bits as int) / pow(
                pow2((self.bit_count - norep_exp(count as nat)) as nat) as int,
                count as nat,
            ),
    {
        proof {
            self.lemma_wf_len();
        }
        let e = next_pow2_exp(count);
        let block = self.bit_count - e;
        let bp = pow2_exec(block);
        let ghost bpi = pow2((self.bit_count - norep_exp(count as nat)) as nat) as int;
        proof {
            lemma_pow2_pos(block as nat);
            lemma_norep_exp_bound(count as nat);
            lemma_pow2_adds(block as nat, e as nat);
            // count words of bp each fit inside the dictionary
            assert((count as int) * bpi <= pow2(e as nat) as int * bpi) by (nonlinear_arith)
                requires
                    count as int <= pow2(e as nat) as int,
                    bpi >= 1,
            ;
            lemma_pow2_adds(e as nat, block as nat);
            assert(e as nat + block as nat == self.bit_count as nat);
            assert(pow2(e as nat) as int * bpi == self.spec_len());
        }
        let len = self.words.len();
        let mut out: Vec<String> = Vec::new();
        let mut acc = bits;
        let mut i: usize = 0;
        proof {
            lemma_pow0(bpi);
            assert(pow(bpi, 0) == 1);
        }
        while i < count
            invariant
                self.wf(),
                2 <= self.spec_len() < 0x1000_0000,
                len == self.spec_len(),
                1 <= count,
                norep_exp(count as nat) < self.bit_count,
                e == norep_exp(count as nat),
                block == self.bit_count - e,
                bp == bpi,
                1 <= bpi,
                (count as int) * bpi <= self.spec_len(),
                i <= count,
                out@.len() == i,
                acc == (bits as int) / pow(bpi, i as nat),
                forall|k: int|
                    0 <= k < i ==> out@[k]@ == self.words@[norep_index(bpi, k, bits as int)]@
                        && word_chars_ok(#[trigger] out@[k]@),
            decreases count - i,
        {
            let local = (acc % (bp as u128)) as usize;
            proof {
                assert((i as int) * bpi + bpi <= (count as int) * bpi) by (nonlinear_arith)
                    requires
                        (i as int) + 1 <= count as int,
                        bpi >= 1,
                ;
            }
            let idx = local + i * bp;
            out.push(self.words[idx].clone());
            proof {
                lemma_pow_positive(bpi, i as nat);
                lemma_pow_adds(bpi, i as nat, 1);
                lemma_pow1(bpi);
                lemma_div_denominator(bits as int, pow(bpi, i as nat), bpi);
            }
            acc = acc / (bp as u128);
            i = i + 1;
        }
        (out, acc)
    }

    /// Looks each word up in order, shifting indexes into the accumulator;
    /// fails at the first unknown word with its position.
    pub fn decode_words(&self, words: &Vec<String>, bits: u128) -> (r: Result<u128, usize>)
        requires
            self.wf(),
            (self.bit_count as int) * (words@.len() as int) <= 128,
            (bits as int) < pow2((128 - self.bit_count * words@.len()) as nat),
        ensures
            r == match decode_words_spec(self@, strs_bytes(words@), bits as int) {
                Ok(v) => Ok::<u128, usize>(v as u128),
                Err(e) => Err::<u128, usize>(e as usize),
            },
    {
        proof {
            self.lemma_wf_len();
        }
        let ghost d = self@;
        let ghost wsb = strs_bytes(words@);
        let c = words.len();
        let len = self.words.len();
        let mut acc = bits;
        let mut i: usize = 0;
        proof {
            assert(wsb.skip(0) =~= wsb);
        }
        while i < c
            invariant
                self.wf(),
                2 <= self.spec_len() < 0x1000_0000,
                len == self.spec_len(),
                d == self@,
                wsb == strs_bytes(words@),
                c == words@.len(),
                (self.bit_count as int) * (c as int) <= 128,
                i <= c,
                (acc as int) < pow2((128 - self.bit_count * (c - i)) as nat),
                match decode_words_spec_rec(d, wsb.skip(i as int), acc as int) {
                    Ok(v) => decode_words_spec(d, wsb, bits as int) == Ok::<int, int>(v),
                    Err(e) => decode_words_spec(d, wsb, bits as int) == Err::<int, int>(
                        e + i as int,
                    ),
                },
            decreases c - i,
        {
            let wstr: &str = words[i].as_str();
            proof {
                assert(wsb.skip(i as int)[0] == wsb[i as int]);
                assert(wstr.spec_bytes() == wsb[i as int]);
            }
            match eytzinger_search(&self.words, wstr) {
                None => {
                    proof {
                        assert(dict_find(d, wsb[i as int]) is None) by {
                            if exists|t: int| 0 <= t < d.len() && eq_ic(#[trigger] d[t], wsb[i as int]) {
                                let t = choose|t: int|
                                    0 <= t < d.len() && eq_ic(#[trigger] d[t], wsb[i as int]);
                                assert(eq_ic(words_bytes(self.words@)[t], wstr.spec_bytes()));
                            }
                        }
                    }
                    return Err(i);
                },
                Some(fi) => {
                    proof {
                        lemma_dict_find_at(d, wsb[i as int], fi as int);
                        let b = self.bit_count as nat;
                        let rem = (c - i) as nat;
                        assert(b * rem <= b * (c as nat)) by (nonlinear_arith)
                            requires
                                rem <= c as nat,
                        ;
                        assert(b * (rem - 1) <= b * rem) by (nonlinear_arith)
                            requires
                                rem >= 1,
                        ;
                        assert((128 - b * (rem - 1)) == (128 - b * rem) + b) by (nonlinear_arith)
                            requires
                                b * rem <= 128,
                                b * (rem - 1) <= 128,
                                rem >= 1,
                        ;
                        lemma_pow2_adds((128 - b * rem) as nat, b);
                        lemma_scale_bound(
                            acc as int,
                            self.spec_len(),
                            pow2((128 - b * rem) as nat) as int,
                        );
                        if (128 - b * (rem - 1)) < 128 {
                            lemma_pow2_strictly_increases((128 - b * (rem - 1)) as nat, 128);
                        }
                        lemma_pow2_128();
                        assert(wsb.skip(i as int).drop_first() =~= wsb.skip(i as int + 1));
                    }
                    acc = acc * (len as u128) + (fi as u128);
                    i = i + 1;
                },
            }
        }
        proof {
            assert(wsb.skip(c as int) =~= Seq::<Seq<u8>>::empty());
        }
        Ok(acc)
    }

    /// Looks each no-repeat word up in order; only the within-block offset
    /// of each index is shifted in, the block number is implied by position.
    pub fn decode_words_norepeat(&self, words: &Vec<String>, bits: u128) -> (r: Result<
        u128,
        usize,
    >)
        requires
            self.wf(),
            1 <= words@.len() <= 0x1000_0000,
            norep_exp(words@.len() as nat) < self.bit_count,
            ((self.bit_count - norep_exp(words@.len() as nat)) as int) * (words@.len() as int)
                <= 128,
            (bits as int) < pow2(
                (128 - (self.bit_count - norep_exp(words@.len() as nat)) * words@.len()) as nat,
            ),
        ensures
            r == match decode_norep_spec(
                self@,
                strs_bytes(words@),
                bits as int,
                pow2((self.bit_count - norep_exp(words@.len() as nat)) as nat) as int,
            ) {
                Ok(v) => Ok::<u128, usize>(v as u128),
                Err(e) => Err::<u128, usize>(e as usize),
            },
    {
        proof {
            self.lemma_wf_len();
        }
        let ghost d = self@;
        let ghost wsb = strs_bytes(words@);
        let c = words.len();
        let e = next_pow2_exp(c);
        let block = self.bit_count - e;
        let bp = pow2_exec(block);
        let ghost bpi = pow2(block as nat) as int;
        proof {
            lemma_pow2_pos(block as nat);
            assert(wsb.skip(0) =~= wsb);
            assert(block as nat == (self.bit_count - norep_exp(words@.len() as nat)) as nat);
            assert(bpi == pow2((self.bit_count - norep_exp(words@.len() as nat)) as nat) as int);
        }
        let mut acc = bits;
        let mut i: usize = 0;
        while i < c
            invariant
                self.wf(),
                2 <= self.spec_len() < 0x1000_0000,
                d == self@,
                wsb == strs_bytes(words@),
                c == words@.len(),
                1 <= c,
                e == norep_exp(c as nat),
                e < self.bit_count,
                block == self.bit_count - e,
                bp == bpi,
                bpi == pow2(block as nat) as int,
                1 <= bpi,
                (block as int) * (c as int) <= 128,
                i <= c,
                (acc as int) < pow2((128 - block * (c - i)) as nat),
                match decode_norep_spec(d, wsb.skip(i as int), acc as int, bpi) {
                    Ok(v) => decode_norep_spec(d, wsb, bits as int, bpi) == Ok::<int, int>(v),
                    Err(er) => decode_norep_spec(d, wsb, bits as int, bpi) == Err::<int, int>(
                        er + i as int,
                    ),
                },
            decreases c - i,
        {
            let wstr: &str = words[i].as_str();
            proof {
                assert(wsb.skip(i as int)[0] == wsb[i as int]);
                assert(wstr.spec_bytes() == wsb[i as int]);
            }
            match eytzinger_search(&self.words, wstr) {
                None => {
                    proof {
                        assert(dict_find(d, wsb[i as int]) is None) by {
                            if exists|t: int| 0 <= t < d.len() && eq_ic(#[trigger] d[t], wsb[i as int]) {
                                let t = choose|t: int|
                                    0 <= t < d.len() && eq_ic(#[trigger] d[t], wsb[i as int]);
                                assert(eq_ic(words_bytes(self.words@)[t], wstr.spec_bytes()));
                            }
                        }
                        assert(decode_norep_spec(d, wsb.skip(i as int), acc as int, bpi)
                            == Err::<int, int>(0));
                        assert(decode_norep_spec(d, wsb, bits as int, bpi) == Err::<int, int>(
                            i as int,
                        ));
                    }
                    return Err(i);
                },
                Some(fi) => {
                    proof {
                        lemma_dict_find_at(d, wsb[i as int], fi as int);
                        let b = block as nat;
                        let rem = (c - i) as nat;
                        assert(b * rem <= b * (c as nat)) by (nonlinear_arith)
                            requires
                                rem <= c as nat,
                        ;
                        assert(b * (rem - 1) <= b * rem) by (nonlinear_arith)
                            requires
                                rem >= 1,
                        ;
                        assert((128 - b * (rem - 1)) == (128 - b * rem) + b) by (nonlinear_arith)
                            requires
                                b * rem <= 128,
                                b * (rem - 1) <= 128,
                                rem >= 1,
                        ;
                        lemma_pow2_adds((128 - b * rem) as nat, b);
                        lemma_scale_bound(acc as int, bpi, pow2((128 - b * rem) as nat) as int);
                        if (128 - b * (rem - 1)) < 128 {
                            lemma_pow2_strictly_increases((128 - b * (rem - 1)) as nat, 128);
                        }
                        lemma_pow2_128();
                        assert((acc as int) * bpi + (bpi - 1) <= u128::MAX as int);
                        assert(wsb.skip(i as int).drop_first() =~= wsb.skip(i as int + 1));
                    }
                    acc = acc * (bp as u128) + ((fi % bp) as u128);
                    i = i + 1;
                },
            }
        }
        proof {
            assert(wsb.skip(c as int) =~= Seq::<Seq<u8>>::empty());
        }
        Ok(acc)
    }
}

/// Any successful decode of `count` words stays below `(acc + 1)` shifted by
/// the consumed bits.
pub proof fn lemma_decode_norep_bound(d: Seq<Seq<u8>>, ws: Seq<Seq<u8>>, acc: int, bp: int)
    requires
        acc >= 0,
        bp >= 1,
    ensures
        match decode_norep_spec(d, ws, acc, bp) {
            Ok(v) => 0 <= v < (acc + 1) * pow(bp, ws.len()),
            Err(_) => true,
        },
    decreases ws.len(),
{
    lemma_pow_positive(bp, ws.len());
    if ws.len() == 0 {
        lemma_pow0(bp);
    } else {
        match dict_find(d, ws[0]) {
            None => {},
            Some(idx) => {
                lemma_fundamental_div_mod(idx, bp);
                let m = idx % bp;
                let acc2 = acc * bp + m;
                assert(0 <= m < bp) by {
                    vstd::arithmetic::div_mod::lemma_mod_bound(idx, bp);
                }
                lemma_decode_norep_bound(d, ws.drop_first(), acc2, bp);
                let c1 = (ws.len() - 1) as nat;
                lemma_pow_adds(bp, 1, c1);
                lemma_pow1(bp);
                lemma_pow_positive(bp, c1);
                assert((acc2 + 1) * pow(bp, c1) <= (acc + 1) * (bp * pow(bp, c1)))
                    by (nonlinear_arith)
                    requires
                        acc >= 0,
                        bp >= 1,
                        0 <= m < bp,
                        acc2 == acc * bp + m,
                        pow(bp, c1) >= 1,
                ;
            },
        }
    }
}

/// Like `lemma_decode_norep_bound`, for repeatable draws.
pub proof fn lemma_decode_words_bound(d: Seq<Seq<u8>>, ws: Seq<Seq<u8>>, acc: int)
    requires
        acc >= 0,
        d.len() >= 1,
    ensures
        match decode_words_spec_rec(d, ws, acc) {
            Ok(v) => 0 <= v < (acc + 1) * pow(d.len() as int, ws.len()),
            Err(_) => true,
        },
    decreases ws.len(),
{
    let l = d.len() as int;
    lemma_pow_positive(l, ws.len());
    if ws.len() == 0 {
        lemma_pow0(l);
    } else {
        match dict_find(d, ws[0]) {
            None => {},
            Some(idx) => {
                let acc2 = acc * l + idx;
                lemma_decode_words_bound(d, ws.drop_first(), acc2);
                let c1 = (ws.len() - 1) as nat;
                lemma_pow_adds(l, 1, c1);
                lemma_pow1(l);
                lemma_pow_positive(l, c1);
                assert((acc2 + 1) * pow(l, c1) <= (acc + 1) * (l * pow(l, c1)))
                    by (nonlinear_arith)
                    requires
                        acc >= 0,
                        l >= 1,
                        0 <= idx < l,
                        acc2 == acc * l + idx,
                        pow(l, c1) >= 1,
                ;
            },
        }
    }
}

/// A decode failure's position lies inside the word list.
pub proof fn lemma_decode_norep_err(d: Seq<Seq<u8>>, ws: Seq<Seq<u8>>, acc: int, bp: int)
    ensures
        match decode_norep_spec(d, ws, acc, bp) {
            Ok(_) => true,
            Err(e) => 0 <= e < ws.len(),
        },
    decreases ws.len(),
{
    if ws.len() > 0 {
        match dict_find(d, ws[0]) {
            None => {},
            Some(idx) => {
                lemma_decode_norep_err(d, ws.drop_first(), acc * bp + idx % bp, bp);
            },
        }
    }
}

/// Like `lemma_decode_norep_err`, for repeatable draws.
pub proof fn lemma_decode_words_err(d: Seq<Seq<u8>>, ws: Seq<Seq<u8>>, acc: int)
    ensures
        match decode_words_spec_rec(d, ws, acc) {
            Ok(_) => true,
            Err(e) => 0 <= e < ws.len(),
        },
    decreases ws.len(),
{
    if ws.len() > 0 {
        match dict_find(d, ws[0]) {
            None => {},
            Some(idx) => {
                lemma_decode_words_err(d, ws.drop_first(), acc * d.len() + idx);
            },
        }
    }
}

/// Decoding undoes a repeatable draw: feeding the drawn words back in
/// reverse order shifts exactly the consumed bits back in.
pub proof fn lemma_decode_words_inverse(
    d: Seq<Seq<u8>>,
    count: nat,
    bits: int,
    acc: int,
    ws: Seq<Seq<u8>>,
)
    requires
        bst_ordered(d),
        d.len() >= 1,
        bits >= 0,
        acc >= 0,
        ws.len() == count,
        forall|k: int| 0 <= k < count ==> eq_ic(#[trigger] ws[k], d[plain_index(d.len() as int, k, bits)]),
    ensures
        decode_words_spec_rec(d, ws.reverse(), acc) == Ok::<int, int>(
            acc * pow(d.len() as int, count) + bits % pow(d.len() as int, count),
        ),
    decreases count,
{
    let l = d.len() as int;
    lemma_pow_positive(l, count);
    if count == 0 {
        lemma_pow0(l);
        assert(ws.reverse() =~= Seq::<Seq<u8>>::empty());
        assert(bits % 1 == 0) by {
            lemma_fundamental_div_mod(bits, 1);
        }
    } else {
        let c1 = (count - 1) as nat;
        let idx = plain_index(l, c1 as int, bits);
        lemma_pow_positive(l, c1);
        assert(0 <= idx < l) by {
            vstd::arithmetic::div_mod::lemma_mod_bound(bits / pow(l, c1), l);
            vstd::arithmetic::div_mod::lemma_div_pos_is_pos(bits, pow(l, c1));
        }
        assert(ws.reverse()[0] == ws[c1 as int]);
        lemma_dict_find_at(d, ws[c1 as int], idx);
        let acc2 = acc * l + idx;
        assert(ws.reverse().drop_first() =~= ws.take(c1 as int).reverse());
        lemma_decode_words_inverse(d, c1, bits, acc2, ws.take(c1 as int));
        lemma_pow_adds(l, c1, 1);
        lemma_pow1(l);
        vstd::arithmetic::div_mod::lemma_breakdown(bits, pow(l, c1), l);
        assert(acc2 * pow(l, c1) == acc * (pow(l, c1) * l) + idx * pow(l, c1))
            by (nonlinear_arith)
            requires
                acc2 == acc * l + idx,
        ;
        assert(idx * pow(l, c1) == pow(l, c1) * ((bits / pow(l, c1)) % l)) by (nonlinear_arith)
            requires
                idx == (bits / pow(l, c1)) % l,
        ;
    }
}

/// Decoding undoes a no-repeat draw: only the block offsets carry bits, and
/// feeding the drawn words back in reverse order shifts them back in.
pub proof fn lemma_decode_norep_inverse(
    d: Seq<Seq<u8>>,
    bp: int,
    count: nat,
    bits: int,
    acc: int,
    ws: Seq<Seq<u8>>,
)
    requires
        bst_ordered(d),
        bp >= 1,
        (count as int) * bp <= d.len(),
        bits >= 0,
        acc >= 0,
        ws.len() == count,
        forall|k: int| 0 <= k < count ==> eq_ic(#[trigger] ws[k], d[norep_index(bp, k, bits)]),
    ensures
        decode_norep_spec(d, ws.reverse(), acc, bp) == Ok::<int, int>(
            acc * pow(bp, count) + bits % pow(bp, count),
        ),
    decreases count,
{
    lemma_pow_positive(bp, count);
    if count == 0 {
        lemma_pow0(bp);
        assert(ws.reverse() =~= Seq::<Seq<u8>>::empty());
        assert(bits % 1 == 0) by {
            lemma_fundamental_div_mod(bits, 1);
        }
    } else {
        let c1 = (count - 1) as nat;
        let local = (bits / pow(bp, c1)) % bp;
        let idx = norep_index(bp, c1 as int, bits);
        lemma_pow_positive(bp, c1);
        assert(0 <= local < bp) by {
            vstd::arithmetic::div_mod::lemma_mod_bound(bits / pow(bp, c1), bp);
            vstd::arithmetic::div_mod::lemma_div_pos_is_pos(bits, pow(bp, c1));
        }
        assert(0 <= idx < d.len()) by {
            assert((c1 as int) * bp + bp <= (count as int) * bp) by (nonlinear_arith)
                requires
                    c1 as int + 1 == count as int,
                    bp >= 1,
            ;
        }
        assert(ws.reverse()[0] == ws[c1 as int]);
        lemma_dict_find_at(d, ws[c1 as int], idx);
        assert(idx % bp == local) by {
            assert(idx == bp * (c1 as int) + local);
            vstd::arithmetic::div_mod::lemma_mod_multiples_vanish(c1 as int, local, bp);
            vstd::arithmetic::div_mod::lemma_small_mod(local as nat, bp as nat);
        }
        let acc2 = acc * bp + local;
        assert(ws.reverse().drop_first() =~= ws.take(c1 as int).reverse());
        lemma_decode_norep_inverse(d, bp, c1, bits, acc2, ws.take(c1 as int));
        lemma_pow_adds(bp, c1, 1);
        lemma_pow1(bp);
        vstd::arithmetic::div_mod::lemma_breakdown(bits, pow(bp, c1), bp);
        assert(acc2 * pow(bp, c1) == acc * (pow(bp, c1) * bp) + local * pow(bp, c1))
            by (nonlinear_arith)
            requires
                acc2 == acc * bp + local,
        ;
        assert(local * pow(bp, c1) == pow(bp, c1) * ((bits / pow(bp, c1)) % bp))
            by (nonlinear_arith)
            requires
                local == (bits / pow(bp, c1)) % bp,
        ;
    }
}

/// No-repeat draws can never coincide: for every input bit pattern, two
/// distinct positions of one no-repeat draw yield words that differ even
/// case-insensitively, because their indexes lie in disjoint blocks of a
/// dictionary without duplicates.
pub proof fn lemma_norepeat_distinct(
    d: Seq<Seq<u8>>,
    bp: int,
    count: int,
    bits: int,
    i: int,
    j: int,
)
    requires
        bst_ordered(d),
        bp >= 1,
        count * bp <= d.len(),
        bits >= 0,
        0 <= i < count,
        0 <= j < count,
        i != j,
    ensures
        !eq_ic(d[norep_index(bp, i, bits)], d[norep_index(bp, j, bits)]),
{
    let ii = norep_index(bp, i, bits);
    let jj = norep_index(bp, j, bits);
    assert(0 <= (bits / pow(bp, i as nat)) % bp < bp && 0 <= (bits / pow(bp, j as nat)) % bp
        < bp) by {
        lemma_pow_positive(bp, i as nat);
        lemma_pow_positive(bp, j as nat);
        vstd::arithmetic::div_mod::lemma_mod_bound(bits / pow(bp, i as nat), bp);
        vstd::arithmetic::div_mod::lemma_mod_bound(bits / pow(bp, j as nat), bp);
        vstd::arithmetic::div_mod::lemma_div_pos_is_pos(bits, pow(bp, i as nat));
        vstd::arithmetic::div_mod::lemma_div_pos_is_pos(bits, pow(bp, j as nat));
    }
    assert(ii != jj) by (nonlinear_arith)
        requires
            0 <= (bits / pow(bp, i as nat)) % bp < bp,
            0 <= (bits / pow(bp, j as nat)) % bp < bp,
            ii == (bits / pow(bp, i as nat)) % bp + i * bp,
            jj == (bits / pow(bp, j as nat)) % bp + j * bp,
            i != j,
            bp >= 1,
    ;
    assert(0 <= ii < d.len() && 0 <= jj < d.len()) by (nonlinear_arith)
        requires
            0 <= (bits / pow(bp, i as nat)) % bp < bp,
            0 <= (bits / pow(bp, j as nat)) % bp < bp,
            ii == (bits / pow(bp, i as nat)) % bp + i * bp,
            jj == (bits / pow(bp, j as nat)) % bp + j * bp,
            0 <= i < count,
            0 <= j < count,
            count * bp <= d.len(),
            bp >= 1,
    ;
    if eq_ic(d[ii], d[jj]) {
        lemma_match_unique(d, d[jj], ii, jj);
    }
}

/// The exact binary logarithm of `n`, when `n` is a power of two.
pub fn log2_exact(n: usize) -> (r: Option<u32>)
    requires
        n < 0x1000_0000,
    ensures
        match r {
            Some(b) => n == pow2(b as nat) && b <= 27,
            None => forall|b: nat| n != pow2(b),
        },
{
    if n == 0 {
        proof {
            assert forall|b: nat| n != pow2(b) by {
                lemma_pow2_pos(b);
            }
        }
        return None;
    }
    let mut p: usize = 1;
    let mut b: u32 = 0;
    proof {
        lemma2_to64();
    }
    while p < n
        invariant
            n < 0x1000_0000,
            p == pow2(b as nat),
            b <= 28,
            p <= 0x1000_0000,
            forall|k: nat| k < b ==> pow2(k) < n,
        decreases 2 * n - p,
    {
        proof {
            lemma_pow2_adds(b as nat, 1);
            lemma2_to64();
            assert forall|k: nat| k < b + 1 implies pow2(k) < n by {
                if k < b as nat {
                } else {
                    assert(pow2(k) == p);
                }
            }
            if b >= 28 {
                lemma_pow2_strictly_increases(28, b as nat);
                lemma2_to64_rest();
                assert(false);
            }
        }
        p = p * 2;
        b = b + 1;
    }
    if p == n {
        proof {
            if b > 27 {
                lemma2_to64_rest();
                if b > 28 {
                    lemma_pow2_strictly_increases(28, b as nat);
                }
                assert(false);
            }
        }
        Some(b)
    } else {
        proof {
            assert forall|k: nat| n != pow2(k) by {
                if k < b as nat {
                } else if k > b as nat {
                    lemma_pow2_strictly_increases(b as nat, k);
                } else {
                }
            }
        }
        None
    }
}

/// `2^e` as a machine integer.
pub fn pow2_exec(e: u32) -> (r: usize)
    requires
        e <= 27,
    ensures
        r == pow2(e as nat),
{
    let mut p: usize = 1;
    let mut b: u32 = 0;
    proof {
        lemma2_to64();
    }
    while b < e
        invariant
            e <= 27,
            b <= e,
            p == pow2(b as nat),
            p <= 0x800_0000,
        decreases e - b,
    {
        proof {
            lemma_pow2_adds(b as nat, 1);
            lemma2_to64();
            if b + 1 < 27 {
                lemma_pow2_strictly_increases((b + 1) as nat, 27);
            }
        }
        p = p * 2;
        b = b + 1;
    }
    p
}

/// `norep_exp` never exceeds an exponent whose power already covers `n`.
pub proof fn lemma_norep_exp_le(n: nat, k: nat)
    requires
        n <= pow2(k),
    ensures
        norep_exp(n) <= k,
    decreases n,
{
    lemma2_to64();
    if n > 1 {
        let h = ((n + 1) / 2) as nat;
        if k == 0 {
            assert(false);
        }
        let km1 = (k - 1) as nat;
        lemma_pow2_adds(km1, 1);
        lemma_norep_exp_le(h, km1);
    }
}

/// The exponent of the least power of two at or above `n`, executably.
pub fn next_pow2_exp(n: usize) -> (r: u32)
    requires
        n <= 0x1000_0000,
    ensures
        r == norep_exp(n as nat),
        r <= 28,
    decreases n,
{
    proof {
        lemma2_to64();
        lemma_norep_exp_le(n as nat, 28);
    }
    if n <= 1 {
        0
    } else {
        let s = next_pow2_exp((n + 1) / 2);
        1 + s
    }
}

/// Tests every entry for being a word: nonempty, ASCII letters only.
pub fn check_words(array: &Vec<String>) -> (r: bool)
    ensures
        r == words_chars_ok(array@),
{
    let n = array.len();
    let mut j: usize = 0;
    while j < n
        invariant
            n == array.len(),
            j <= n,
            forall|k: int| 0 <= k < j ==> word_chars_ok(#[trigger] array@[k]@),
        decreases n - j,
    {
        let st: &str = array[j].as_str();
        let l = st.unicode_len();
        if l == 0 {
            return false;
        }
        let mut k: usize = 0;
        while k < l
            invariant
                n == array.len(),
                j < n,
                st@ == array@[j as int]@,
                l == st@.len(),
                k <= l,
                forall|t: int| 0 <= t < k ==> char_is_alpha(#[trigger] st@[t]),
            decreases l - k,
        {
            let ch = st.get_char(k);
            let u = ch as u32;
            if !((65 <= u && u <= 90) || (97 <= u && u <= 122)) {
                proof {
                    assert(!char_is_alpha(st@[k as int]));
                }
                return false;
            }
            proof {
                assert(char_is_alpha(st@[k as int]));
            }
            k = k + 1;
        }
        j = j + 1;
    }
    true
}

/// Tests every entry against the filler words of the phrase templates.
pub fn check_no_fillers(array: &Vec<String>) -> (r: bool)
    requires
        words_chars_ok(array@),
        array.len() < 0x1000_0000,
    ensures
        r == no_fillers(words_bytes(array@)),
{
    let fa = filler_a_vec();
    let fthe = filler_the_vec();
    let fand = filler_and_vec();
    let fthat = filler_that_vec();
    let ghost d = words_bytes(array@);
    let n = array.len();
    let mut j: usize = 0;
    while j < n
        invariant
            n == array.len(),
            d == words_bytes(array@),
            words_chars_ok(array@),
            n < 0x1000_0000,
            fa@ == filler_a(),
            fthe@ == filler_the(),
            fand@ == filler_and(),
            fthat@ == filler_that(),
            j <= n,
            forall|k: int|
                0 <= k < j ==> !eq_ic(#[trigger] d[k], filler_a()) && !eq_ic(d[k], filler_the())
                    && !eq_ic(d[k], filler_and()) && !eq_ic(d[k], filler_that()),
        decreases n - j,
    {
        let wj = crate::eytzinger::word_slice(array, j);
        if crate::ascii::eq_ignore_case(wj, fa.as_slice()) || crate::ascii::eq_ignore_case(
            wj,
            fthe.as_slice(),
        ) || crate::ascii::eq_ignore_case(wj, fand.as_slice()) || crate::ascii::eq_ignore_case(
            wj,
            fthat.as_slice(),
        ) {
            return false;
        }
        j = j + 1;
    }
    true
}

} // verus!
