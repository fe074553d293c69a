use std::cmp::Ordering;

use meme_id::eytzinger::eytzinger_search;
use meme_id::ascii::cmp_ignore_case_ascii;
use meme_id::mapper::WordMapper;

fn owned(words: &[&str]) -> Vec<String> {
    words.iter().map(|w| w.to_string()).collect()
}

#[test]
fn case_insensitive_comparison_orders_and_ties() {
    assert_eq!(cmp_ignore_case_ascii(b"abc", b"ABC"), Ordering::Equal);
    assert_eq!(cmp_ignore_case_ascii(b"abc", b"abd"), Ordering::Less);
    assert_eq!(cmp_ignore_case_ascii(b"B", b"a"), Ordering::Greater);
    // a proper prefix comes first
    assert_eq!(cmp_ignore_case_ascii(b"ab", b"abc"), Ordering::Less);
    assert_eq!(cmp_ignore_case_ascii(b"ABCD", b"abc"), Ordering::Greater);
}

#[test]
fn search_finds_every_entry_and_rejects_absent_words() {
    // the four object pronouns in their stored tree order
    let words = owned(&["us", "me", "you", "it"]);
    for (i, w) in ["us", "me", "you", "it"].iter().enumerate() {
        assert_eq!(eytzinger_search(&words, *w), Some(i));
        assert_eq!(eytzinger_search(&words, &w.to_uppercase()), Some(i));
    }
    assert_eq!(eytzinger_search(&words, "them"), None);
    assert_eq!(eytzinger_search(&words, ""), None);
}

#[test]
fn search_agrees_with_a_reference_scan() {
    // a larger tree: sorted order [ah, bo, cu, do, ek, fi, gu, ho] laid out
    // breadth-first
    let words = owned(&["ek", "cu", "gu", "bo", "do", "fi", "ho", "ah"]);
    let queries = ["ah", "bo", "cu", "do", "ek", "fi", "gu", "ho", "aa", "zz", "ell", "g"];
    for q in queries {
        let reference = words.iter().position(|w| w.eq_ignore_ascii_case(q));
        assert_eq!(eytzinger_search(&words, q), reference);
    }
}

#[test]
fn mapper_construction_validates_its_input() {
    // out of search-tree order
    assert!(WordMapper::new(owned(&["ah", "bo", "cu", "do"])).is_none());
    // not a power of two
    assert!(WordMapper::new(owned(&["bo", "ah", "cu"])).is_none());
    // a filler word among the entries
    assert!(WordMapper::new(owned(&["the", "ah", "zz", "ta"])).is_none());
    // a non-letter in an entry
    assert!(WordMapper::new(owned(&["e4", "ah", "zz", "ta"])).is_none());
    // a well-formed tree of four words
    let m = WordMapper::new(owned(&["us", "me", "you", "it"]));
    assert!(m.is_some());
    assert_eq!(m.unwrap().bits(), 2);
}

#[test]
fn mapper_word_round_trip() {
    let m = WordMapper::new(owned(&["us", "me", "you", "it"])).unwrap();
    assert_eq!(m.bit_mask(), 3);
    for bits in 0u128..16 {
        let (word, rest) = m.encode_word(bits);
        let back = m.decode_word(&word, rest).unwrap();
        assert_eq!(back, bits);
    }
    assert_eq!(m.decode_word("them", 0), None);
}
