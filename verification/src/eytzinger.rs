//! Dictionary search over an implicit binary search tree stored breadth-first
//! (Eytzinger layout): node `k`'s children sit at `2k+1` and `2k+2`.
//!
//! Well-formedness (`bst_ordered`) says every entry is strictly below its
//! ancestor in case-insensitive order when it lies in the ancestor's left
//! subtree, and strictly above when it lies in the right one. Under that
//! invariant `eytzinger_search` finds the unique case-insensitive match of a
//! query, exactly as a binary search over the sorted word list would.

use vstd::prelude::*;
use vstd::string::StringSliceAdditionalSpecFns;
use vstd::arithmetic::div_mod::{lemma_div_denominator, lemma_fundamental_div_mod};
use vstd::arithmetic::power2::{lemma2_to64, lemma_pow2_adds, lemma_pow2_pos, lemma_pow2_strictly_increases, pow2};

use crate::ascii::{
    ascii_seq, char_is_alpha, cmp_ignore_case_ascii, eq_ic, eq_ignore_case, ic_lt,
    lemma_seq_lt_asymmetric, lemma_seq_lt_irreflexive, low_seq, word_chars_ok,
};

verus! {

/// The tree position (one-based) reached from position `j + 1` by climbing
/// `k` levels towards the root.
pub open spec fn anc(j: int, k: nat) -> int {
    (j + 1) / pow2(k) as int
}

/// Entry `j` lies in the subtree rooted at entry `i` (possibly `j == i`).
pub open spec fn in_subtree(j: int, i: int) -> bool {
    exists|k: nat| #[trigger] anc(j, k) == i + 1
}

/// The breadth-first search-tree order: everything in a left subtree is
/// strictly below its root, everything in a right subtree strictly above,
/// in case-insensitive order.
pub open spec fn bst_ordered(d: Seq<Seq<u8>>) -> bool {
    &&& forall|i: int, j: int|
        0 <= i < d.len() && 0 <= j < d.len() && #[trigger] in_subtree(j, 2 * i + 1) ==> ic_lt(
            d[j],
            d[i],
        )
    &&& forall|i: int, j: int|
        0 <= i < d.len() && 0 <= j < d.len() && #[trigger] in_subtree(j, 2 * i + 2) ==> ic_lt(
            d[i],
            d[j],
        )
}

/// The byte strings of a word list.
pub open spec fn words_bytes(ws: Seq<String>) -> Seq<Seq<u8>> {
    Seq::new(ws.len(), |i: int| ascii_seq(ws[i]@))
}

/// Every entry of the word list is a word: nonempty, ASCII letters only.
pub open spec fn words_chars_ok(ws: Seq<String>) -> bool {
    forall|i: int| 0 <= i < ws.len() ==> word_chars_ok(#[trigger] ws[i]@)
}

proof fn lemma_anc_zero(j: int)
    ensures
        anc(j, 0) == j + 1,
{
    lemma2_to64();
}

proof fn lemma_anc_step(j: int, k: nat)
    requires
        j >= 0,
    ensures
        anc(j, k + 1) == anc(j, k) / 2,
{
    lemma_pow2_adds(k, 1);
    lemma2_to64();
    lemma_pow2_pos(k);
    lemma_div_denominator(j + 1, pow2(k) as int, 2);
}

/// Every entry roots its own subtree.
pub proof fn lemma_subtree_self(j: int)
    ensures
        in_subtree(j, j),
{
    lemma_anc_zero(j);
    assert(anc(j, 0) == j + 1);
}

/// The two children of an entry lie in its subtree.
pub proof fn lemma_subtree_child(i: int)
    requires
        i >= 0,
    ensures
        in_subtree(2 * i + 1, i),
        in_subtree(2 * i + 2, i),
{
    lemma2_to64();
    assert(anc(2 * i + 1, 1) == i + 1);
    assert(anc(2 * i + 2, 1) == i + 1);
}

/// Subtree containment is transitive.
pub proof fn lemma_subtree_trans(x: int, y: int, z: int)
    requires
        x >= 0,
        y >= 0,
        in_subtree(x, y),
        in_subtree(y, z),
    ensures
        in_subtree(x, z),
{
    let k1 = choose|k: nat| #[trigger] anc(x, k) == y + 1;
    let k2 = choose|k: nat| #[trigger] anc(y, k) == z + 1;
    lemma_pow2_pos(k1);
    lemma_pow2_pos(k2);
    lemma_pow2_adds(k1, k2);
    lemma_div_denominator(x + 1, pow2(k1) as int, pow2(k2) as int);
    assert(anc(x, k1 + k2) == z + 1);
}

/// Nothing sits in the subtree of a later entry.
pub proof fn lemma_subtree_bound(j: int, i: int)
    requires
        j >= 0,
        i >= 0,
        in_subtree(j, i),
    ensures
        j >= i,
{
    let k = choose|k: nat| #[trigger] anc(j, k) == i + 1;
    lemma_pow2_pos(k);
    vstd::arithmetic::div_mod::lemma_div_is_ordered_by_denominator(j + 1, 1, pow2(k) as int);
}

/// A strict subtree member lies in one of the two child subtrees.
pub proof fn lemma_subtree_split(j: int, i: int)
    requires
        j >= 0,
        i >= 0,
        j != i,
        in_subtree(j, i),
    ensures
        in_subtree(j, 2 * i + 1) || in_subtree(j, 2 * i + 2),
{
    let k = choose|k: nat| #[trigger] anc(j, k) == i + 1;
    if k == 0 {
        lemma_anc_zero(j);
        assert(false);
    } else {
        let km1 = (k - 1) as nat;
        lemma_anc_step(j, km1);
        let c = anc(j, km1);
        lemma_pow2_pos(km1);
        lemma_fundamental_div_mod(c, 2);
        assert(c == 2 * i + 2 || c == 2 * i + 3);
        if c == 2 * i + 2 {
            assert(anc(j, km1) == (2 * i + 1) + 1);
        } else {
            assert(anc(j, km1) == (2 * i + 2) + 1);
        }
    }
}

proof fn lemma_match_unique_at(d: Seq<Seq<u8>>, w: Seq<u8>, root: int, i: int, j: int)
    requires
        bst_ordered(d),
        0 <= root < d.len(),
        0 <= i < d.len(),
        0 <= j < d.len(),
        in_subtree(i, root),
        in_subtree(j, root),
        eq_ic(d[i], w),
        eq_ic(d[j], w),
    ensures
        i == j,
    decreases d.len() - root,
{
    if i == root && j == root {
    } else if j == root {
        lemma_subtree_split(i, root);
        lemma_seq_lt_irreflexive(low_seq(d[root]));
        assert(false);
    } else if i == root {
        lemma_subtree_split(j, root);
        lemma_seq_lt_irreflexive(low_seq(d[root]));
        assert(false);
    } else {
        lemma_subtree_split(i, root);
        lemma_subtree_split(j, root);
        let left = 2 * root + 1;
        let right = 2 * root + 2;
        if in_subtree(i, left) && in_subtree(j, left) {
            lemma_subtree_bound(i, left);
            lemma_match_unique_at(d, w, left, i, j);
        } else if in_subtree(i, right) && in_subtree(j, right) {
            lemma_subtree_bound(i, right);
            lemma_match_unique_at(d, w, right, i, j);
        } else {
            lemma_seq_lt_asymmetric(low_seq(d[i]), low_seq(d[root]));
            assert(false);
        }
    }
}

/// In a well-ordered dictionary at most one entry matches a query
/// case-insensitively.
pub proof fn lemma_match_unique(d: Seq<Seq<u8>>, w: Seq<u8>, i: int, j: int)
    requires
        bst_ordered(d),
        0 <= i < d.len(),
        0 <= j < d.len(),
        eq_ic(d[i], w),
        eq_ic(d[j], w),
    ensures
        i == j,
{
    lemma_root_contains(i);
    lemma_root_contains(j);
    lemma_match_unique_at(d, w, 0, i, j);
}

/// Every entry lies in the subtree of the first one.
proof fn lemma_root_contains(j: int)
    requires
        j >= 0,
    ensures
        in_subtree(j, 0),
    decreases j,
{
    if j == 0 {
        lemma_subtree_self(0);
    } else {
        let parent = (j - 1) / 2;
        assert(j == 2 * parent + 1 || j == 2 * parent + 2) by {
            lemma_fundamental_div_mod(j - 1, 2);
        }
        lemma_subtree_child(parent);
        lemma_root_contains(parent);
        lemma_subtree_trans(j, parent, 0);
    }
}

/// A word list entry, as its byte string.
///
/// The bytes of an all-ASCII string are its characters read as bytes.
pub fn word_slice<'a>(array: &'a Vec<String>, i: usize) -> (r: &'a [u8])
    requires
        i < array.len(),
        word_chars_ok(array@[i as int]@),
    ensures
        r@ == words_bytes(array@)[i as int],
        r@ == ascii_seq(array@[i as int]@),
{
    let st: &str = array[i].as_str();
    let r = st.as_bytes();
    proof {
        let s = st@;
        assert forall|k: int| 0 <= k < s.len() implies '\0' <= #[trigger] s[k] <= '\u{7f}' by {
            assert(char_is_alpha(s[k]));
        }
        assert(vstd::string::is_ascii(st));
        vstd::string::is_ascii_spec_bytes(st);
        assert(r@ =~= ascii_seq(array@[i as int]@));
    }
    r
}

/// One step of the ancestor walk from entry `j`: at climb height `k` the
/// walk stands at one-based position `anc(j, k)`; if that position has a
/// parent, the entry must sit on the correct side of it.
pub open spec fn climb_check(d: Seq<Seq<u8>>, j: int, k: nat) -> bool {
    let c = anc(j, k);
    c >= 2 ==> (if c % 2 == 0 {
        ic_lt(d[j], d[c / 2 - 1])
    } else {
        ic_lt(d[c / 2 - 1], d[j])
    })
}

/// Entry `j` is ordered correctly against every one of its ancestors.
pub open spec fn climb_ok(d: Seq<Seq<u8>>, j: int) -> bool {
    forall|k: nat| #[trigger] climb_check(d, j, k)
}

proof fn lemma_anc_le(j: int, k1: nat, k2: nat)
    requires
        j >= 0,
        k1 <= k2,
    ensures
        anc(j, k2) <= anc(j, k1),
{
    lemma_pow2_pos(k1);
    lemma_pow2_pos(k2);
    if k1 < k2 {
        lemma_pow2_strictly_increases(k1, k2);
    }
    vstd::arithmetic::div_mod::lemma_div_is_ordered_by_denominator(
        j + 1,
        pow2(k1) as int,
        pow2(k2) as int,
    );
}

/// Ancestor checks for every entry amount to the search-tree order.
proof fn lemma_climb_to_bst(d: Seq<Seq<u8>>)
    requires
        forall|j: int| 0 <= j < d.len() ==> climb_ok(d, #[trigger] (j + 0)),
    ensures
        bst_ordered(d),
{
    assert forall|i: int, j: int|
        0 <= i < d.len() && 0 <= j < d.len() && #[trigger] in_subtree(j, 2 * i + 1) implies ic_lt(
        d[j],
        d[i],
    ) by {
        let k = choose|k: nat| #[trigger] anc(j, k) == 2 * i + 2;
        assert(climb_ok(d, j + 0));
        assert(climb_check(d, j, k));
    }
    assert forall|i: int, j: int|
        0 <= i < d.len() && 0 <= j < d.len() && #[trigger] in_subtree(j, 2 * i + 2) implies ic_lt(
        d[i],
        d[j],
    ) by {
        let k = choose|k: nat| #[trigger] anc(j, k) == 2 * i + 3;
        assert(climb_ok(d, j + 0));
        assert(climb_check(d, j, k));
    }
}

/// Checks the search-tree order of a word list by walking every entry's
/// ancestor chain.
pub fn check_bst(array: &Vec<String>) -> (r: bool)
    requires
        words_chars_ok(array@),
        array.len() < 0x1000_0000,
    ensures
        r == bst_ordered(words_bytes(array@)),
{
    let ghost d = words_bytes(array@);
    let n = array.len();
    let mut j: usize = 0;
    while j < n
        invariant
            n == array.len(),
            n < 0x1000_0000,
            d == words_bytes(array@),
            words_chars_ok(array@),
            forall|jj: int| 0 <= jj < j ==> climb_ok(d, #[trigger] (jj + 0)),
        decreases n - j,
    {
        let wj = word_slice(array, j);
        let mut cur = j + 1;
        let ghost mut k: nat = 0;
        proof {
            lemma_anc_zero(j as int);
        }
        while cur >= 2
            invariant
                n == array.len(),
                n < 0x1000_0000,
                d == words_bytes(array@),
                words_chars_ok(array@),
                j < n,
                wj@ == d[j as int],
                1 <= cur <= j + 1,
                cur == anc(j as int, k),
                forall|kk: nat| kk < k ==> #[trigger] climb_check(d, j as int, kk),
            decreases cur,
        {
            let par = cur / 2;
            let pi = par - 1;
            let wp = word_slice(array, pi);
            let o = cmp_ignore_case_ascii(wj, wp);
            let ok = if cur % 2 == 0 {
                matches!(o, core::cmp::Ordering::Less)
            } else {
                matches!(o, core::cmp::Ordering::Greater)
            };
            if !ok {
                proof {
                    if bst_ordered(d) {
                        if cur % 2 == 0 {
                            assert(anc(j as int, k) == 2 * (pi as int) + 1 + 1);
                            assert(in_subtree(j as int, 2 * (pi as int) + 1));
                            assert(ic_lt(d[j as int], d[pi as int]));
                        } else {
                            assert(anc(j as int, k) == 2 * (pi as int) + 2 + 1);
                            assert(in_subtree(j as int, 2 * (pi as int) + 2));
                            assert(ic_lt(d[pi as int], d[j as int]));
                        }
                        assert(false);
                    }
                }
                return false;
            }
            proof {
                lemma_anc_step(j as int, k);
                assert forall|kk: nat| kk < k + 1 implies #[trigger] climb_check(
                    d,
                    j as int,
                    kk,
                ) by {
                    if kk == k {
                        assert(climb_check(d, j as int, k));
                    }
                }
                k = k + 1;
            }
            cur = par;
        }
        proof {
            assert forall|kk: nat| #[trigger] climb_check(d, j as int, kk) by {
                if kk >= k {
                    lemma_anc_le(j as int, k, kk);
                    lemma_pow2_pos(kk);
                    assert(anc(j as int, kk) >= 0) by {
                        vstd::arithmetic::div_mod::lemma_div_pos_is_pos(
                            j + 1,
                            pow2(kk) as int,
                        );
                    }
                }
            }
            assert(climb_ok(d, j as int));
        }
        j = j + 1;
    }
    proof {
        lemma_climb_to_bst(d);
    }
    true
}

/// Case-insensitive exact search in an Eytzinger-ordered word list: the index
/// of the unique match, or `None` when no entry matches.
///
/// The descent compares the query at each node and goes left on greater or
/// equal, right on less; the closing fix-up climbs past the trailing right
/// moves to recover the last node the search went left at, and a final
/// equality check rejects near misses.
pub fn eytzinger_search(array: &Vec<String>, s: &str) -> (r: Option<usize>)
    requires
        words_chars_ok(array@),
        bst_ordered(words_bytes(array@)),
        array.len() < 0x1000_0000,
    ensures
        match r {
            Some(i) => i < array.len() && eq_ic(words_bytes(array@)[i as int], s.spec_bytes()),
            None => forall|t: int|
                0 <= t < array.len() ==> !eq_ic(#[trigger] words_bytes(array@)[t], s.spec_bytes()),
        },
{
    let ghost d = words_bytes(array@);
    let ghost w = s.spec_bytes();
    let sb: &[u8] = s.as_bytes();
    let n = array.len();
    let mut i: usize = 0;
    let ghost mut last: Option<int> = None;
    let ghost mut r: nat = 0;

    proof {
        lemma2_to64();
        assert forall|t: int| 0 <= t < n && eq_ic(#[trigger] d[t], w) implies in_subtree(
            t,
            0,
        ) by {
            lemma_root_contains(t);
        }
    }
    while i < n
        invariant
            n == array.len(),
            n < 0x1000_0000,
            i <= 2 * n,
            d == words_bytes(array@),
            w == s.spec_bytes(),
            sb@ == w,
            words_chars_ok(array@),
            bst_ordered(d),
            match last {
                None => i + 1 == 2 * pow2(r) - 1,
                Some(a) => 0 <= a < n && i + 1 == 2 * (a + 1) * pow2(r) as int + pow2(r) as int
                    - 1 && in_subtree(i as int, 2 * a + 1),
            },
            forall|t: int|
                0 <= t < n && eq_ic(#[trigger] d[t], w) ==> (in_subtree(t, i as int) || last
                    == Some(t)),
        decreases 2 * n - i,
    {
        let vb = word_slice(array, i);
        let o = cmp_ignore_case_ascii(vb, sb);
        let go_left = match o {
            core::cmp::Ordering::Less => false,
            _ => true,
        };
        proof {
            lemma_seq_lt_asymmetric(low_seq(d[i as int]), low_seq(w));
            lemma_seq_lt_irreflexive(low_seq(w));
            // where the matching entry, if any, moves
            assert forall|t: int| 0 <= t < n && eq_ic(#[trigger] d[t], w) implies (in_subtree(
                t,
                if go_left {
                    2 * (i as int) + 1
                } else {
                    2 * (i as int) + 2
                },
            ) || (if go_left {
                Some(i as int)
            } else {
                last
            }) == Some(t)) by {
                if in_subtree(t, i as int) {
                    if t == i as int {
                        assert(go_left);
                    } else {
                        lemma_subtree_split(t, i as int);
                        if in_subtree(t, 2 * (i as int) + 1) {
                            assert(ic_lt(d[t], d[i as int]));
                            lemma_seq_lt_asymmetric(low_seq(d[t]), low_seq(d[i as int]));
                            assert(go_left);
                        } else {
                            assert(ic_lt(d[i as int], d[t]));
                            lemma_seq_lt_asymmetric(low_seq(d[i as int]), low_seq(d[t]));
                            assert(!go_left);
                        }
                    }
                } else {
                    // the search went left at the match; everything visited
                    // after sits in its left subtree, strictly below the query
                    let a = t;
                    assert(last == Some(a));
                    assert(in_subtree(i as int, 2 * a + 1));
                    assert(ic_lt(d[i as int], d[a]));
                    lemma_seq_lt_asymmetric(low_seq(d[i as int]), low_seq(d[a]));
                    lemma_seq_lt_irreflexive(low_seq(d[i as int]));
                    assert(!go_left);
                }
            }
        }
        if go_left {
            proof {
                let ip = i as int;
                lemma2_to64();
                last = Some(ip);
                r = 0;
                lemma_subtree_self(2 * ip + 1);
            }
            i = 2 * i + 1;
        } else {
            proof {
                let ip = i as int;
                let oldr = r;
                lemma_pow2_pos(oldr);
                lemma_pow2_adds(oldr, 1);
                lemma2_to64();
                assert(pow2(oldr + 1) == 2 * pow2(oldr));
                match last {
                    None => {
                        assert(2 * (ip + 1) + 1 == 2 * pow2((oldr + 1) as nat) as int - 1);
                    },
                    Some(a) => {
                        assert(2 * (a + 1) * pow2((oldr + 1) as nat) as int == 2 * (2 * (a + 1)
                            * pow2(oldr) as int)) by (nonlinear_arith)
                            requires
                                pow2((oldr + 1) as nat) == 2 * pow2(oldr),
                        ;
                        lemma_subtree_child(ip);
                        lemma_subtree_trans(2 * ip + 2, ip, 2 * a + 1);
                    },
                }
                r = oldr + 1;
            }
            i = 2 * i + 2;
        }
    }
    // fix-up: strip the trailing right moves and one left move
    let p = i + 1;
    let mut q = p;
    let ghost mut m: nat = 0;
    while q % 2 == 1
        invariant
            n == array.len(),
            n < 0x1000_0000,
            i >= n,
            d == words_bytes(array@),
            w == s.spec_bytes(),
            sb@ == w,
            words_chars_ok(array@),
            bst_ordered(d),
            match last {
                None => m <= r + 1 && (m <= r ==> q == 2 * pow2((r - m) as nat) - 1) && (m == r + 1
                    ==> q == 0),
                Some(a) => 0 <= a < n && m <= r && q == 2 * (a + 1) * pow2((r - m) as nat) as int
                    + pow2((r - m) as nat) as int - 1,
            },
            forall|t: int|
                0 <= t < n && eq_ic(#[trigger] d[t], w) ==> (in_subtree(t, i as int) || last
                    == Some(t)),
        decreases q,
    {
        proof {
            lemma2_to64();
            let s1 = (r - m) as nat;
            lemma_pow2_pos(s1);
            match last {
                None => {
                    if m == r + 1 {
                        assert(q == 0);
                        assert(false);
                    }
                    if m < r {
                        let s2 = (r - m - 1) as nat;
                        lemma_pow2_adds(s2, 1);
                        assert(pow2(s1) == 2 * pow2(s2));
                    } else {
                        assert(q == 2 * pow2(0) - 1);
                    }
                },
                Some(a) => {
                    if m == r {
                        assert(q == 2 * (a + 1) * pow2(0) as int + pow2(0) as int - 1);
                        assert(q == 2 * (a + 1));
                        assert(false);
                    }
                    let s2 = (r - m - 1) as nat;
                    lemma_pow2_adds(s2, 1);
                    assert(pow2(s1) == 2 * pow2(s2));
                    assert(2 * (a + 1) * pow2(s1) as int == 2 * (2 * (a + 1) * pow2(s2) as int))
                        by (nonlinear_arith)
                        requires
                            pow2(s1) == 2 * pow2(s2),
                    ;
                },
            }
            m = m + 1;
        }
        q = q / 2;
    }
    let j = q / 2;
    proof {
        lemma2_to64();
        match last {
            None => {
                if m <= r {
                    let s1 = (r - m) as nat;
                    lemma_pow2_pos(s1);
                    if s1 == 0 {
                        assert(q == 2 * pow2(0) - 1);
                        assert(false);
                    } else {
                        let s2 = (r - m - 1) as nat;
                        lemma_pow2_adds(s2, 1);
                        assert(pow2(s1) == 2 * pow2(s2));
                        assert(q == 2 * (2 * pow2(s2) as int) - 1);
                        assert(false);
                    }
                }
                assert(q == 0);
                assert(j == 0);
            },
            Some(a) => {
                if m < r {
                    let s1 = (r - m) as nat;
                    let s2 = (r - m - 1) as nat;
                    lemma_pow2_pos(s2);
                    lemma_pow2_adds(s2, 1);
                    assert(pow2(s1) == 2 * pow2(s2));
                    assert(2 * (a + 1) * pow2(s1) as int == 2 * (2 * (a + 1) * pow2(s2) as int))
                        by (nonlinear_arith)
                        requires
                            pow2(s1) == 2 * pow2(s2),
                    ;
                    assert(q + 1 == 2 * ((2 * (a + 1) * pow2(s2) as int) + pow2(s2) as int));
                    assert(q % 2 == 1);
                    assert(false);
                }
                assert(q == 2 * (a + 1) * pow2(0) as int + pow2(0) as int - 1);
                assert(q == 2 * (a + 1));
                assert(j == a + 1);
            },
        }
    }
    if j == 0 {
        proof {
            assert forall|t: int| 0 <= t < n implies !eq_ic(#[trigger] d[t], w) by {
                if eq_ic(d[t], w) {
                    if in_subtree(t, i as int) {
                        lemma_subtree_bound(t, i as int);
                    }
                }
            }
        }
        return None;
    }
    let cand = j - 1;
    let cb = word_slice(array, cand);
    if eq_ignore_case(cb, sb) {
        Some(cand)
    } else {
        proof {
            assert forall|t: int| 0 <= t < n implies !eq_ic(#[trigger] d[t], w) by {
                if eq_ic(d[t], w) {
                    if in_subtree(t, i as int) {
                        lemma_subtree_bound(t, i as int);
                    }
                    assert(last == Some(t));
                }
            }
        }
        None
    }
}

} // verus!
