//! Shared scheme machinery: parse errors, the hyphenated rendering wrapper,
//! and the template parser that tokenizes free text, skips filler words at
//! fixed positions and demands an exact count of content words.

use vstd::prelude::*;
use vstd::string::StringSliceAdditionalSpecFns;

use crate::ascii::{ascii_seq, char_is_alpha, eq_ic, word_chars_ok};
use crate::eytzinger::words_bytes;
use crate::mapper::{
    filler_a, filler_a_vec, filler_and, filler_and_vec, filler_that, filler_that_vec, filler_the,
    filler_the_vec, string_bytes,
};
use crate::text::{ascii_to_string, dec_digits, push_str_bytes, push_word_bytes, usize_to_string};

verus! {

/// A decode failure, at specification level.
pub enum ErrorView {
    NotEnoughWords { expected: nat, actual: nat },
    TrailingWords,
    Unrecognized { word: Seq<u8> },
}

/// A decode failure: too few content words (with the counts), content words
/// left over, or a word missing from its dictionary.
#[derive(Debug)]
pub enum Error {
    NotEnoughWords { expected: usize, actual: usize },
    TrailingWords,
    Unrecognized { word: String },
}

impl View for Error {
    type V = ErrorView;

    open spec fn view(&self) -> ErrorView {
        match self {
            Error::NotEnoughWords { expected, actual } => ErrorView::NotEnoughWords {
                expected: *expected as nat,
                actual: *actual as nat,
            },
            Error::TrailingWords => ErrorView::TrailingWords,
            Error::Unrecognized { word } => ErrorView::Unrecognized { word: string_bytes(word@) },
        }
    }
}

impl Error {
    /// The carried word, if any, is plain ASCII.
    pub open spec fn wf(&self) -> bool {
        match self {
            Error::Unrecognized { word } => vstd::utf8::is_ascii_chars(word@),
            _ => true,
        }
    }

    /// The failure, in words.
    pub fn text(&self) -> (r: String)
        requires
            self.wf(),
        ensures
            ascii_seq(r@) == error_text_bytes(self@),
    {
        let mut buf: Vec<u8> = Vec::new();
        match self {
            Error::NotEnoughWords { expected, actual } => {
                proof {
                    reveal_strlit("Not enough words. Expected ");
                    reveal_strlit(", actual ");
                }
                push_str_bytes(&mut buf, "Not enough words. Expected ");
                let es = usize_to_string(*expected);
                push_ascii_string(&mut buf, &es);
                push_str_bytes(&mut buf, ", actual ");
                let as_ = usize_to_string(*actual);
                push_ascii_string(&mut buf, &as_);
            },
            Error::TrailingWords => {
                proof {
                    reveal_strlit("Words left after parsing");
                }
                push_str_bytes(&mut buf, "Words left after parsing");
            },
            Error::Unrecognized { word } => {
                proof {
                    reveal_strlit("Word '");
                    reveal_strlit("' unrecognized");
                }
                push_str_bytes(&mut buf, "Word '");
                push_ascii_string(&mut buf, word);
                proof {
                    vstd::utf8::is_ascii_chars_encode_utf8(word@);
                    assert(string_bytes(word@) =~= ascii_seq(word@));
                }
                push_str_bytes(&mut buf, "' unrecognized");
            },
        }
        let ghost bufg = buf@;
        let r = ascii_to_string(buf);
        proof {
            assert(ascii_seq(r@) =~= bufg);
        }
        r
    }
}

/// The bytes of a failure message.
pub open spec fn error_text_bytes(e: ErrorView) -> Seq<u8> {
    match e {
        ErrorView::NotEnoughWords { expected, actual } => ascii_seq("Not enough words. Expected "@)
            + dec_digits(expected) + ascii_seq(", actual "@) + dec_digits(actual),
        ErrorView::TrailingWords => ascii_seq("Words left after parsing"@),
        ErrorView::Unrecognized { word } => ascii_seq("Word '"@) + word + ascii_seq(
            "' unrecognized"@,
        ),
    }
}

impl PartialEq for Error {
    fn eq(&self, other: &Error) -> (r: bool) {
        match (self, other) {
            (
                Error::NotEnoughWords { expected: e1, actual: a1 },
                Error::NotEnoughWords { expected: e2, actual: a2 },
            ) => *e1 == *e2 && *a1 == *a2,
            (Error::TrailingWords, Error::TrailingWords) => true,
            (Error::Unrecognized { word: w1 }, Error::Unrecognized { word: w2 }) => w1.eq(w2),
            _ => false,
        }
    }
}

impl vstd::std_specs::cmp::PartialEqSpecImpl for Error {
    open spec fn obeys_eq_spec() -> bool {
        true
    }

    open spec fn eq_spec(&self, other: &Error) -> bool {
        match (self, other) {
            (
                Error::NotEnoughWords { expected: e1, actual: a1 },
                Error::NotEnoughWords { expected: e2, actual: a2 },
            ) => e1 == e2 && a1 == a2,
            (Error::TrailingWords, Error::TrailingWords) => true,
            (Error::Unrecognized { word: w1 }, Error::Unrecognized { word: w2 }) => w1@ == w2@,
            _ => false,
        }
    }
}

/// Wrapper that changes the text rendering of a scheme: all content words on
/// one line, hyphens between them, no filler words.
pub struct Hyphenated<T>(pub T);

/// A set of filler words a template position may silently absorb.
pub enum SkipSet {
    Articles,
    And,
    That,
}

/// One step of a parsing template: read a content word, or skip one filler.
pub enum Step {
    Take,
    Skip(SkipSet),
}

/// Whether a word belongs to a filler set, case-insensitively.
pub open spec fn skip_set_match(s: SkipSet, w: Seq<u8>) -> bool {
    match s {
        SkipSet::Articles => eq_ic(w, filler_a()) || eq_ic(w, filler_the()),
        SkipSet::And => eq_ic(w, filler_and()),
        SkipSet::That => eq_ic(w, filler_that()),
    }
}

/// Runs a parsing template over a token list: `Take` reads the next token as
/// a content word or fails with the counts, `Skip` absorbs at most one
/// matching filler, and any token left at the end is a trailing-words
/// failure.
pub open spec fn parse_plan(
    toks: Seq<Seq<u8>>,
    plan: Seq<Step>,
    pos: int,
    taken: Seq<Seq<u8>>,
    expected: nat,
) -> Result<Seq<Seq<u8>>, ErrorView>
    decreases plan.len(),
{
    if plan.len() == 0 {
        if pos < toks.len() {
            Err(ErrorView::TrailingWords)
        } else {
            Ok(taken)
        }
    } else {
        match plan[0] {
            Step::Take => {
                if pos >= toks.len() {
                    Err(ErrorView::NotEnoughWords { expected, actual: taken.len() })
                } else {
                    parse_plan(toks, plan.drop_first(), pos + 1, taken.push(toks[pos]), expected)
                }
            },
            Step::Skip(ss) => {
                let np = if pos < toks.len() && skip_set_match(ss, toks[pos]) {
                    pos + 1
                } else {
                    pos
                };
                parse_plan(toks, plan.drop_first(), np, taken, expected)
            },
        }
    }
}

/// How many content words a template reads.
pub open spec fn take_count(plan: Seq<Step>) -> nat
    decreases plan.len(),
{
    if plan.len() == 0 {
        0
    } else {
        (match plan[0] {
            Step::Take => 1nat,
            Step::Skip(_) => 0nat,
        }) + take_count(plan.drop_first())
    }
}

/// A successful parse returns exactly the template's count of content words.
pub proof fn lemma_parse_plan_len(
    toks: Seq<Seq<u8>>,
    plan: Seq<Step>,
    pos: int,
    taken: Seq<Seq<u8>>,
    expected: nat,
)
    ensures
        match parse_plan(toks, plan, pos, taken, expected) {
            Ok(res) => res.len() == taken.len() + take_count(plan),
            Err(_) => true,
        },
    decreases plan.len(),
{
    if plan.len() > 0 {
        match plan[0] {
            Step::Take => {
                if pos < toks.len() {
                    lemma_parse_plan_len(
                        toks,
                        plan.drop_first(),
                        pos + 1,
                        taken.push(toks[pos]),
                        expected,
                    );
                }
            },
            Step::Skip(ss) => {
                let np = if pos < toks.len() && skip_set_match(ss, toks[pos]) {
                    pos + 1
                } else {
                    pos
                };
                lemma_parse_plan_len(toks, plan.drop_first(), np, taken, expected);
            },
        }
    }
}

/// Appends the bytes of an ASCII string value.
pub(crate) fn push_ascii_string(buf: &mut Vec<u8>, w: &String)
    requires
        vstd::utf8::is_ascii_chars(w@),
    ensures
        final(buf)@ == old(buf)@ + ascii_seq(w@),
{
    let st: &str = w.as_str();
    push_str_bytes(buf, st);
}

/// Advances past one filler word of the set, if the next token is one.
pub fn skip_one_of(tokens: &Vec<String>, pos: usize, set: &SkipSet) -> (np: usize)
    requires
        pos <= tokens@.len(),
        forall|i: int| 0 <= i < tokens@.len() ==> word_chars_ok(#[trigger] tokens@[i]@),
    ensures
        np == if pos < tokens@.len() && skip_set_match(*set, words_bytes(tokens@)[pos as int]) {
            pos + 1int
        } else {
            pos as int
        },
        pos <= np <= tokens@.len(),
{
    if pos >= tokens.len() {
        return pos;
    }
    let w = crate::eytzinger::word_slice(tokens, pos);
    let hit = match set {
        SkipSet::Articles => {
            let fa = filler_a_vec();
            let fthe = filler_the_vec();
            crate::ascii::eq_ignore_case(w, fa.as_slice()) || crate::ascii::eq_ignore_case(
                w,
                fthe.as_slice(),
            )
        },
        SkipSet::And => {
            let f = filler_and_vec();
            crate::ascii::eq_ignore_case(w, f.as_slice())
        },
        SkipSet::That => {
            let f = filler_that_vec();
            crate::ascii::eq_ignore_case(w, f.as_slice())
        },
    };
    if hit {
        pos + 1
    } else {
        pos
    }
}

/// Runs a parsing template over the token list, returning the content words
/// or the failure the template prescribes.
pub fn parse_tokens(tokens: &Vec<String>, plan: &Vec<Step>, expected: usize) -> (r: Result<
    Vec<String>,
    Error,
>)
    requires
        forall|i: int| 0 <= i < tokens@.len() ==> word_chars_ok(#[trigger] tokens@[i]@),
    ensures
        match r {
            Ok(out) => parse_plan(words_bytes(tokens@), plan@, 0, seq![], expected as nat) == Ok::<
                Seq<Seq<u8>>,
                ErrorView,
            >(words_bytes(out@)) && (forall|i: int|
                0 <= i < out@.len() ==> word_chars_ok(#[trigger] out@[i]@)),
            Err(e) => parse_plan(words_bytes(tokens@), plan@, 0, seq![], expected as nat) == Err::<
                Seq<Seq<u8>>,
                ErrorView,
            >(e@) && e.wf(),
        },
{
    let ghost toksb = words_bytes(tokens@);
    let ghost full = parse_plan(toksb, plan@, 0, seq![], expected as nat);
    let m = plan.len();
    let mut out: Vec<String> = Vec::new();
    let mut pos: usize = 0;
    let mut pi: usize = 0;
    proof {
        assert(plan@.skip(0) =~= plan@);
        assert(words_bytes(out@) =~= Seq::<Seq<u8>>::empty());
    }
    while pi < m
        invariant
            toksb == words_bytes(tokens@),
            forall|i: int| 0 <= i < tokens@.len() ==> word_chars_ok(#[trigger] tokens@[i]@),
            forall|i: int| 0 <= i < out@.len() ==> word_chars_ok(#[trigger] out@[i]@),
            m == plan@.len(),
            pi <= m,
            pos <= tokens@.len(),
            full == parse_plan(toksb, plan@, 0, seq![], expected as nat),
            parse_plan(toksb, plan@.skip(pi as int), pos as int, words_bytes(out@), expected as nat)
                == full,
        decreases m - pi,
    {
        proof {
            assert(plan@.skip(pi as int)[0] == plan@[pi as int]);
            assert(plan@.skip(pi as int).drop_first() =~= plan@.skip(pi as int + 1));
        }
        match &plan[pi] {
            Step::Take => {
                if pos >= tokens.len() {
                    return Err(Error::NotEnoughWords { expected, actual: out.len() });
                }
                let ghost oldout = out@;
                let w = tokens[pos].clone();
                out.push(w);
                proof {
                    assert(words_bytes(out@) =~= words_bytes(oldout).push(toksb[pos as int]));
                }
                pos = pos + 1;
            },
            Step::Skip(ss) => {
                pos = skip_one_of(tokens, pos, ss);
            },
        }
        pi = pi + 1;
    }
    proof {
        assert(plan@.skip(m as int) =~= Seq::<Step>::empty());
    }
    if pos < tokens.len() {
        return Err(Error::TrailingWords);
    }
    Ok(out)
}

} // verus!
