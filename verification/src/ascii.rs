//! Case-insensitive ASCII byte order: the order every dictionary is kept in
//! and every word lookup uses.

use vstd::prelude::*;

verus! {

/// An ASCII letter.
pub open spec fn is_alpha(b: u8) -> bool {
    (65 <= b && b <= 90) || (97 <= b && b <= 122)
}

/// An ASCII letter, as a character.
pub open spec fn char_is_alpha(c: char) -> bool {
    ('A' <= c && c <= 'Z') || ('a' <= c && c <= 'z')
}

/// Maps an upper-case ASCII letter to its lower-case form; anything else is unchanged.
pub open spec fn low(b: u8) -> u8 {
    if 65 <= b && b <= 90 {
        (b + 32) as u8
    } else {
        b
    }
}

/// A byte string folded to lower case.
pub open spec fn low_seq(s: Seq<u8>) -> Seq<u8> {
    Seq::new(s.len(), |i: int| low(s[i]))
}

/// Case-insensitive equality of byte strings.
pub open spec fn eq_ic(a: Seq<u8>, b: Seq<u8>) -> bool {
    low_seq(a) == low_seq(b)
}

/// Strict lexicographic order on byte strings: the first differing byte
/// decides, and a proper prefix comes before every extension of it.
pub open spec fn seq_lt(a: Seq<u8>, b: Seq<u8>) -> bool
    decreases a.len(),
{
    if b.len() == 0 {
        false
    } else if a.len() == 0 {
        true
    } else if a[0] < b[0] {
        true
    } else if b[0] < a[0] {
        false
    } else {
        seq_lt(a.drop_first(), b.drop_first())
    }
}

/// Strict case-insensitive order on byte strings.
pub open spec fn ic_lt(a: Seq<u8>, b: Seq<u8>) -> bool {
    seq_lt(low_seq(a), low_seq(b))
}

/// The bytes of an ASCII character string.
pub open spec fn ascii_seq(s: Seq<char>) -> Seq<u8> {
    Seq::new(s.len(), |i: int| s[i] as u8)
}

/// A word: at least one character, all of them ASCII letters.
pub open spec fn word_chars_ok(s: Seq<char>) -> bool {
    s.len() >= 1 && (forall|i: int| 0 <= i < s.len() ==> char_is_alpha(#[trigger] s[i]))
}

/// `seq_lt` never relates a byte string to itself.
pub proof fn lemma_seq_lt_irreflexive(a: Seq<u8>)
    ensures
        !seq_lt(a, a),
    decreases a.len(),
{
    if a.len() > 0 {
        lemma_seq_lt_irreflexive(a.drop_first());
    }
}

/// `seq_lt` orders any two byte strings in at most one direction.
pub proof fn lemma_seq_lt_asymmetric(a: Seq<u8>, b: Seq<u8>)
    ensures
        !(seq_lt(a, b) && seq_lt(b, a)),
    decreases a.len(),
{
    if a.len() > 0 && b.len() > 0 && a[0] == b[0] {
        lemma_seq_lt_asymmetric(a.drop_first(), b.drop_first());
    }
}

/// Introduces `seq_lt` from a position that bounds a common prefix and decides.
pub proof fn lemma_seq_lt_witness(a: Seq<u8>, b: Seq<u8>, i: int)
    requires
        0 <= i <= a.len(),
        i <= b.len(),
        forall|k: int| 0 <= k < i ==> a[k] == b[k],
        (i < a.len() && i < b.len() && a[i] < b[i]) || (i == a.len() && i < b.len()),
    ensures
        seq_lt(a, b),
    decreases i,
{
    if i > 0 {
        assert(a[0] == b[0]);
        lemma_seq_lt_witness(a.drop_first(), b.drop_first(), i - 1);
    }
}

/// Folds one byte to lower case.
pub fn to_lower(b: u8) -> (r: u8)
    ensures
        r == low(b),
{
    if 65 <= b && b <= 90 {
        b + 32
    } else {
        b
    }
}

/// Tests one byte for being an ASCII letter.
pub fn is_ascii_letter(b: u8) -> (r: bool)
    ensures
        r == is_alpha(b),
{
    (65 <= b && b <= 90) || (97 <= b && b <= 122)
}

/// Three-way case-insensitive comparison of byte strings: the first differing
/// lower-cased byte decides, a proper prefix comes first.
pub fn cmp_ignore_case_ascii(a: &[u8], b: &[u8]) -> (o: core::cmp::Ordering)
    ensures
        (o == core::cmp::Ordering::Less) == ic_lt(a@, b@),
        (o == core::cmp::Ordering::Equal) == eq_ic(a@, b@),
        (o == core::cmp::Ordering::Greater) == ic_lt(b@, a@),
{
    let mut i: usize = 0;
    while i < a.len() && i < b.len()
        invariant
            0 <= i <= a@.len(),
            i <= b@.len(),
            forall|k: int| 0 <= k < i ==> low(a@[k]) == low(b@[k]),
        decreases a@.len() - i,
    {
        let la = to_lower(a[i]);
        let lb = to_lower(b[i]);
        if la < lb {
            proof {
                assert(low_seq(a@)[i as int] < low_seq(b@)[i as int]);
                lemma_seq_lt_witness(low_seq(a@), low_seq(b@), i as int);
                lemma_seq_lt_asymmetric(low_seq(a@), low_seq(b@));
            }
            return core::cmp::Ordering::Less;
        }
        if lb < la {
            proof {
                assert(low_seq(b@)[i as int] < low_seq(a@)[i as int]);
                lemma_seq_lt_witness(low_seq(b@), low_seq(a@), i as int);
                lemma_seq_lt_asymmetric(low_seq(a@), low_seq(b@));
            }
            return core::cmp::Ordering::Greater;
        }
        i = i + 1;
    }
    if a.len() < b.len() {
        proof {
            lemma_seq_lt_witness(low_seq(a@), low_seq(b@), i as int);
            lemma_seq_lt_asymmetric(low_seq(a@), low_seq(b@));
        }
        core::cmp::Ordering::Less
    } else if b.len() < a.len() {
        proof {
            lemma_seq_lt_witness(low_seq(b@), low_seq(a@), i as int);
            lemma_seq_lt_asymmetric(low_seq(a@), low_seq(b@));
        }
        core::cmp::Ordering::Greater
    } else {
        proof {
            assert(low_seq(a@) =~= low_seq(b@));
            lemma_seq_lt_irreflexive(low_seq(a@));
            lemma_seq_lt_asymmetric(low_seq(a@), low_seq(b@));
        }
        core::cmp::Ordering::Equal
    }
}

/// Case-insensitive equality test of byte strings.
pub fn eq_ignore_case(a: &[u8], b: &[u8]) -> (r: bool)
    ensures
        r == eq_ic(a@, b@),
{
    match cmp_ignore_case_ascii(a, b) {
        core::cmp::Ordering::Equal => true,
        _ => false,
    }
}

} // verus!
