use meme_id::adjective_noun;
use meme_id::complex_phrase;
use meme_id::lexicon::Lexicon;
use meme_id::phrase;
use meme_id::punk;
use meme_id::schemes::Error;
use meme_id::simple_phrase;

fn lex() -> Lexicon {
    Lexicon::new().expect("the embedded word lists validate")
}

#[test]
fn lexicon_builds() {
    assert!(Lexicon::new().is_some());
}

#[test]
fn adjective_noun_round_trip_samples() {
    let l = lex();
    for n in [0u16, 1, 42, 1000, 0x1234, u16::MAX] {
        let p = adjective_noun::encode(&l, n);
        let natural = p.text();
        assert_eq!(adjective_noun::decode(&l, &natural), Ok(n));
        let compact = p.hyphenated().text();
        assert_eq!(adjective_noun::decode(&l, &compact), Ok(n));
    }
}

#[test]
fn sixteen_bit_scheme_examples() {
    let l = lex();
    let forty_two = adjective_noun::encode(&l, 42).text();
    assert_eq!(adjective_noun::decode(&l, &forty_two), Ok(42));
    let max = adjective_noun::encode(&l, u16::MAX).text();
    assert_eq!(adjective_noun::decode(&l, &max), Ok(u16::MAX));
}

#[test]
fn simple_phrase_round_trip_samples() {
    let l = lex();
    for n in [0u32, 1, 42, 123_456_789, u32::MAX] {
        let p = simple_phrase::encode(&l, n);
        assert_eq!(simple_phrase::decode(&l, &p.text()), Ok(n));
        assert_eq!(simple_phrase::decode(&l, &p.hyphenated().text()), Ok(n));
    }
}

#[test]
fn phrase_round_trip_samples() {
    let l = lex();
    for n in [0u64, 1, 42, 0xdead_beef_1234, u64::MAX] {
        let p = phrase::encode(&l, n);
        assert_eq!(phrase::decode(&l, &p.text()), Ok(n));
        assert_eq!(phrase::decode(&l, &p.hyphenated().text()), Ok(n));
    }
}

#[test]
fn punk_round_trip_samples() {
    let l = lex();
    for n in [0u64, 1, 42, 0x0123_4567_89ab_cdef, u64::MAX] {
        let p = punk::encode(&l, n);
        assert_eq!(punk::decode(&l, &p.text()), Ok(n));
        let p = punk::encode(&l, n);
        assert_eq!(punk::decode(&l, &p.hyphenated().text()), Ok(n));
    }
}

#[test]
fn complex_phrase_round_trip_samples() {
    let l = lex();
    for n in [0u128, 1, 42, 0x0123_4567_89ab_cdef_fedc_ba98_7654_3210, u128::MAX] {
        let p = complex_phrase::encode(&l, n);
        assert_eq!(complex_phrase::decode(&l, &p.text()), Ok(n));
        let p = complex_phrase::encode(&l, n);
        assert_eq!(complex_phrase::decode(&l, &p.hyphenated().text()), Ok(n));
    }
}

#[test]
fn decoding_ignores_case() {
    let l = lex();
    let p = simple_phrase::encode(&l, 0xfeed_1234);
    let text = p.text();
    assert_eq!(simple_phrase::decode(&l, &text.to_uppercase()), Ok(0xfeed_1234));
    assert_eq!(simple_phrase::decode(&l, &text.to_lowercase()), Ok(0xfeed_1234));
    let q = adjective_noun::encode(&l, 777);
    let compact = q.hyphenated().text();
    let mut mixed = String::new();
    for (i, c) in compact.chars().enumerate() {
        if i % 2 == 0 {
            mixed.extend(c.to_uppercase());
        } else {
            mixed.extend(c.to_lowercase());
        }
    }
    assert_eq!(adjective_noun::decode(&l, &mixed), Ok(777));
}

#[test]
fn decoding_tolerates_separators() {
    let l = lex();
    let p = simple_phrase::encode(&l, 987_654_321);
    let words: Vec<String> = p.hyphenated().text().split('-').map(|w| w.to_string()).collect();
    let variants = [
        format!("  {} ,,, {} -- {} ... {}!!", words[0], words[1], words[2], words[3]),
        format!("{}\n{}\t{}   {}", words[0], words[1], words[2], words[3]),
        format!("{}_{}_{}_{}", words[0], words[1], words[2], words[3]),
    ];
    for v in variants {
        assert_eq!(simple_phrase::decode(&l, &v), Ok(987_654_321));
    }
}

#[test]
fn no_repeat_draws_never_coincide() {
    let l = lex();
    for n in [0u64, 1, 0xffff_ffff_ffff_ffff, 0x0101_0101_0101_0101, 9_876_543_210] {
        let p = punk::encode(&l, n);
        for i in 0..4 {
            for j in 0..4 {
                if i != j {
                    assert_ne!(p.verbs[i].to_lowercase(), p.verbs[j].to_lowercase());
                    assert_ne!(p.adjectives[i].to_lowercase(), p.adjectives[j].to_lowercase());
                }
            }
        }
    }
    for n in [0u64, u64::MAX, 0x1234_5678_9abc_def0] {
        let p = phrase::encode(&l, n);
        assert_ne!(p.adjective1.to_lowercase(), p.adjective2.to_lowercase());
        assert_ne!(p.adjective1.to_lowercase(), p.adjective3.to_lowercase());
        assert_ne!(p.adjective2.to_lowercase(), p.adjective3.to_lowercase());
        assert_ne!(p.noun1.to_lowercase(), p.noun2.to_lowercase());
    }
}

#[test]
fn boundary_one_word_short_and_one_extra() {
    let l = lex();
    // one fewer content word than the scheme requires
    assert_eq!(
        simple_phrase::decode(&l, "the brave fox jumps"),
        Err(Error::NotEnoughWords { expected: 4, actual: 3 })
    );
    // one extra content word
    let p = simple_phrase::encode(&l, 5);
    let longer = format!("{} extra", p.text());
    assert_eq!(simple_phrase::decode(&l, &longer), Err(Error::TrailingWords));
    assert_eq!(
        adjective_noun::decode(&l, "the brave"),
        Err(Error::NotEnoughWords { expected: 2, actual: 1 })
    );
}

#[test]
fn zero_encodes_to_first_entries_in_draw_order() {
    let l = lex();
    let p = simple_phrase::encode(&l, 0);
    // the first entry of each dictionary, in its stored order
    assert_eq!(p.adjective, "migleeg");
    assert_eq!(p.noun, "maufreack");
    assert_eq!(p.verb, "migloop");
    assert_eq!(p.adverb, "mucairk");
    assert_eq!(p.text(), "The migleeg maufreack migloop mucairk");
    assert_eq!(simple_phrase::decode(&l, "The migleeg maufreack migloop mucairk"), Ok(0));
}

#[test]
fn four_word_scheme_accepts_example_and_rejects_extra() {
    let l = lex();
    assert!(simple_phrase::decode(&l, "the brave fox jumps swiftly").is_ok());
    assert_eq!(
        simple_phrase::decode(&l, "the very brave fox jumps swiftly"),
        Err(Error::TrailingWords)
    );
}

#[test]
fn unknown_word_is_reported() {
    let l = lex();
    assert_eq!(
        simple_phrase::decode(&l, "the zzzzzz fox jumps swiftly"),
        Err(Error::Unrecognized { word: "zzzzzz".to_string() })
    );
}

#[test]
fn error_messages() {
    assert_eq!(
        Error::NotEnoughWords { expected: 4, actual: 3 }.text(),
        "Not enough words. Expected 4, actual 3"
    );
    assert_eq!(Error::TrailingWords.text(), "Words left after parsing");
    assert_eq!(
        Error::Unrecognized { word: "blorp".to_string() }.text(),
        "Word 'blorp' unrecognized"
    );
}

#[test]
fn natural_renderings_carry_fillers() {
    let l = lex();
    let p = adjective_noun::encode(&l, 0);
    assert_eq!(p.text(), "The migleeg maufreack");
    let p = adjective_noun::encode(&l, 0);
    assert_eq!(p.hyphenated().text(), "migleeg-maufreack");
    let p = phrase::encode(&l, 0);
    let t = p.text();
    assert!(t.starts_with("The "));
    assert!(t.contains(" the "));
    assert_eq!(phrase::decode(&l, &t), Ok(0));
}

#[test]
fn punk_rendering_is_capitalized_clauses() {
    let l = lex();
    let p = punk::encode(&l, 0);
    let t = p.text();
    let lines: Vec<&str> = t.split('\n').collect();
    assert_eq!(lines.len(), 4);
    for line in &lines {
        for word in line.split(|c: char| !c.is_ascii_alphabetic()) {
            if !word.is_empty() {
                assert!(word.chars().next().unwrap().is_ascii_uppercase());
            }
        }
    }
    assert_eq!(punk::decode(&l, &t), Ok(0));
}
