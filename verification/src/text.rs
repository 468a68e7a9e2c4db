//! Text normalization and the similarity scorer.
//!
//! A recognized title and a dataset name are compared after dropping
//! whitespace and the punctuation marks `!`, `?` and `.` and lowercasing
//! the rest.  Equality of the normalized forms is an exact match;
//! otherwise the two are scored by a normalized edit-distance metric with
//! a matching-prefix bonus, blended with a length-ratio penalty, on an
//! integer scale where `SIMILARITY_SCALE` is an exact match.

use vstd::prelude::*;

verus! {

use vstd::arithmetic::div_mod::{
    lemma_div_pos_is_pos, lemma_div_is_ordered, lemma_div_multiples_vanish,
};
use vstd::arithmetic::mul::{
    lemma_mul_nonnegative, lemma_mul_inequality, lemma_mul_upper_bound,
    lemma_mul_is_commutative,
};

/// Score of an exact match: similarity values are parts per million.
pub const SIMILARITY_SCALE: u64 = 1000000;

/// Longest normalized string the scorer distinguishes; anything longer
/// scores zero.  Far beyond any recognized card title, and it keeps every
/// intermediate product inside `u64`.
pub const SIMILARITY_LEN_LIMIT: usize = 100000;

/// Whether `c` has the Unicode white-space property: the result of
/// `char::is_whitespace`, which depends on the character alone.
pub uninterp spec fn unicode_whitespace(c: char) -> bool;

/// Relies on `char::is_whitespace`: a pure character-class test.
#[verifier::external_body]
pub(crate) fn is_whitespace_char(c: char) -> (r: bool)
    ensures
        r == unicode_whitespace(c),
{
    c.is_whitespace()
}

/// The Unicode lowercase mapping of a character sequence: the result of
/// `str::to_lowercase`, which depends on the characters alone.
pub uninterp spec fn lowercase_of(s: Seq<char>) -> Seq<char>;

/// Relies on `str::to_lowercase`: locale-independent Unicode lowercasing.
/// Every character maps to one or more characters, so the result is empty
/// exactly when the input is.
#[verifier::external_body]
pub(crate) fn lowercase_str(s: &str) -> (r: String)
    ensures
        r@ == lowercase_of(s@),
        s@.len() == 0 ==> r@.len() == 0,
        s@.len() > 0 ==> r@.len() > 0,
{
    s.to_lowercase()
}

/// A character that normalization keeps: not whitespace and not one of
/// the punctuation marks `!`, `?`, `.`.
pub open spec fn kept_char(c: char) -> bool {
    !unicode_whitespace(c) && c != '!' && c != '?' && c != '.'
}

/// The kept characters of `s`, in order.
pub open spec fn kept_chars(s: Seq<char>) -> Seq<char> {
    s.filter(|c: char| kept_char(c))
}

/// The normalized form of `s`: kept characters, lowercased.
pub open spec fn normalized(s: Seq<char>) -> Seq<char> {
    lowercase_of(kept_chars(s))
}

/// Drops whitespace and the punctuation marks `!`, `?`, `.` and
/// lowercases what remains.
pub fn normalize_text(text: &str) -> (r: String)
    ensures
        r@ == normalized(text@),
        text@.len() == 0 ==> r@.len() == 0,
{
    let n: usize = text.unicode_len();
    let mut kept = String::new();
    let mut i: usize = 0;
    while i < n
        invariant
            n == text@.len(),
            i <= n,
            kept@ == kept_chars(text@.take(i as int)),
        decreases n - i,
    {
        let c = text.get_char(i);
        if !is_whitespace_char(c) && c != '!' && c != '?' && c != '.' {
            let piece = text.substring_char(i, i + 1);
            proof {
                assert(piece@ =~= seq![text@[i as int]]);
            }
            kept.append(piece);
        }
        proof {
            reveal(Seq::<_>::filter);
            assert(text@.take(i as int + 1).drop_last() =~= text@.take(i as int));
            assert(text@.take(i as int + 1).last() == text@[i as int]);
            assert(kept@ == kept_chars(text@.take(i as int + 1)));
        }
        i += 1;
    }
    proof {
        assert(text@.take(n as int) =~= text@);
        if text@.len() == 0 {
            reveal(Seq::<_>::filter);
            assert(kept_chars(text@).len() == 0);
        }
    }
    lowercase_str(kept.as_str())
}

/// The characters of `s`, as a vector.
pub(crate) fn chars_vec(s: &str) -> (r: Vec<char>)
    ensures
        r@ == s@,
{
    let n: usize = s.unicode_len();
    let mut r: Vec<char> = Vec::new();
    let mut i: usize = 0;
    while i < n
        invariant
            n == s@.len(),
            i <= n,
            r@ =~= s@.take(i as int),
        decreases n - i,
    {
        r.push(s.get_char(i));
        i += 1;
    }
    proof {
        assert(s@.take(n as int) =~= s@);
    }
    r
}

/// The smaller of three distances.
pub open spec fn min3(a: nat, b: nat, c: nat) -> nat {
    if a <= b && a <= c {
        a
    } else if b <= c {
        b
    } else {
        c
    }
}

/// The edit distance between two character sequences: the least number of
/// single-character insertions, deletions and substitutions turning one
/// into the other.
pub open spec fn edit_distance(a: Seq<char>, b: Seq<char>) -> nat
    decreases a.len() + b.len(),
{
    if a.len() == 0 {
        b.len()
    } else if b.len() == 0 {
        a.len()
    } else {
        let del = edit_distance(a.drop_last(), b) + 1;
        let ins = edit_distance(a, b.drop_last()) + 1;
        let sub = edit_distance(a.drop_last(), b.drop_last()) + (
        if a.last() == b.last() {
            0nat
        } else {
            1nat
        });
        min3(del, ins, sub)
    }
}

/// The edit distance never exceeds the longer input's length.
pub proof fn lemma_edit_distance_le_max(a: Seq<char>, b: Seq<char>)
    ensures
        edit_distance(a, b) <= if a.len() >= b.len() {
            a.len()
        } else {
            b.len()
        },
    decreases a.len() + b.len(),
{
    if a.len() == 0 {
    } else if b.len() == 0 {
    } else {
        lemma_edit_distance_le_max(a.drop_last(), b.drop_last());
    }
}

/// The edit distance of a sequence to itself is zero.
pub proof fn lemma_edit_distance_self(a: Seq<char>)
    ensures
        edit_distance(a, a) == 0,
    decreases a.len(),
{
    if a.len() > 0 {
        lemma_edit_distance_self(a.drop_last());
    }
}

/// Dynamic-programming computation of the edit distance, one row per
/// prefix of `a`.
fn edit_distance_impl(a: &Vec<char>, b: &Vec<char>) -> (d: usize)
    requires
        a@.len() <= SIMILARITY_LEN_LIMIT,
        b@.len() <= SIMILARITY_LEN_LIMIT,
    ensures
        d == edit_distance(a@, b@),
{
    let la: usize = a.len();
    let lb: usize = b.len();
    let mut prev: Vec<usize> = Vec::new();
    let mut j: usize = 0;
    while j <= lb
        invariant
            lb == b@.len() <= SIMILARITY_LEN_LIMIT,
            j <= lb + 1,
            prev@.len() == j,
            forall|k: int| 0 <= k < j ==> #[trigger] prev@[k] == edit_distance(
                Seq::<char>::empty(), b@.take(k)),
        decreases lb + 1 - j,
    {
        proof {
            assert(b@.take(j as int).len() == j as int);
            assert(edit_distance(Seq::<char>::empty(), b@.take(j as int)) == j as nat);
        }
        prev.push(j);
        j += 1;
    }
    let mut i: usize = 0;
    while i < la
        invariant
            la == a@.len() <= SIMILARITY_LEN_LIMIT,
            lb == b@.len() <= SIMILARITY_LEN_LIMIT,
            i <= la,
            prev@.len() == lb + 1,
            forall|k: int| 0 <= k <= lb ==> #[trigger] prev@[k] == edit_distance(
                a@.take(i as int), b@.take(k)),
        decreases la - i,
    {
        let mut cur: Vec<usize> = Vec::new();
        proof {
            assert(a@.take(i as int + 1).drop_last() =~= a@.take(i as int));
            assert(a@.take(i as int + 1).last() == a@[i as int]);
            assert(edit_distance(a@.take(i as int + 1), Seq::<char>::empty()) == i + 1);
            assert(b@.take(0) =~= Seq::<char>::empty());
        }
        cur.push(i + 1);
        let mut j2: usize = 0;
        while j2 < lb
            invariant
                la == a@.len() <= SIMILARITY_LEN_LIMIT,
                lb == b@.len() <= SIMILARITY_LEN_LIMIT,
                i < la,
                j2 <= lb,
                prev@.len() == lb + 1,
                cur@.len() == j2 + 1,
                forall|k: int| 0 <= k <= lb ==> #[trigger] prev@[k] == edit_distance(
                    a@.take(i as int), b@.take(k)),
                forall|k: int| 0 <= k <= j2 ==> #[trigger] cur@[k] == edit_distance(
                    a@.take(i as int + 1), b@.take(k)),
            decreases lb - j2,
        {
            proof {
                lemma_edit_distance_le_max(a@.take(i as int), b@.take(j2 as int + 1));
                lemma_edit_distance_le_max(a@.take(i as int + 1), b@.take(j2 as int));
                lemma_edit_distance_le_max(a@.take(i as int), b@.take(j2 as int));
            }
            let cost: usize = if a[i] == b[j2] {
                0
            } else {
                1
            };
            let d1: usize = prev[j2 + 1] + 1;
            let d2: usize = cur[j2] + 1;
            let d3: usize = prev[j2] + cost;
            let m: usize = if d1 <= d2 && d1 <= d3 {
                d1
            } else if d2 <= d3 {
                d2
            } else {
                d3
            };
            proof {
                assert(a@.take(i as int + 1).drop_last() =~= a@.take(i as int));
                assert(b@.take(j2 as int + 1).drop_last() =~= b@.take(j2 as int));
                assert(a@.take(i as int + 1).last() == a@[i as int]);
                assert(b@.take(j2 as int + 1).last() == b@[j2 as int]);
                assert(m == edit_distance(a@.take(i as int + 1), b@.take(j2 as int + 1)));
            }
            cur.push(m);
            j2 += 1;
        }
        prev = cur;
        i += 1;
    }
    proof {
        assert(a@.take(la as int) =~= a@);
        assert(b@.take(lb as int) =~= b@);
    }
    prev[lb]
}

/// Length of the longest common prefix of two sequences.
pub open spec fn common_prefix_len(a: Seq<char>, b: Seq<char>) -> nat
    decreases a.len(),
{
    if a.len() == 0 || b.len() == 0 || a[0] != b[0] {
        0
    } else {
        1 + common_prefix_len(a.skip(1), b.skip(1))
    }
}

/// The matching-prefix bonus weight: the common prefix length, capped at
/// four characters.
pub open spec fn prefix_weight(a: Seq<char>, b: Seq<char>) -> nat {
    if common_prefix_len(a, b) >= 4 {
        4
    } else {
        common_prefix_len(a, b)
    }
}

/// Computes the capped common prefix length.
fn prefix_weight_impl(a: &Vec<char>, b: &Vec<char>) -> (p: usize)
    ensures
        p == prefix_weight(a@, b@),
        p <= 4,
{
    proof {
        assert(a@.skip(0) =~= a@);
        assert(b@.skip(0) =~= b@);
    }
    let mut i: usize = 0;
    while i < 4 && i < a.len() && i < b.len() && a[i] == b[i]
        invariant
            i <= 4,
            i <= a@.len(),
            i <= b@.len(),
            common_prefix_len(a@, b@) == i + common_prefix_len(
                a@.skip(i as int), b@.skip(i as int)),
        decreases 4 - i,
    {
        proof {
            assert(a@.skip(i as int).skip(1) =~= a@.skip(i as int + 1));
            assert(b@.skip(i as int).skip(1) =~= b@.skip(i as int + 1));
            assert(a@.skip(i as int)[0] == a@[i as int]);
            assert(b@.skip(i as int)[0] == b@[i as int]);
        }
        i += 1;
    }
    proof {
        if i < 4 {
            assert(common_prefix_len(a@.skip(i as int), b@.skip(i as int)) == 0);
        }
    }
    i
}

/// The similarity of two normalized sequences, in parts per million.
/// Empty or over-long inputs score zero.  Otherwise, with `d` the edit
/// distance, `p` the prefix weight and `maxl`, `minl` the two lengths,
/// the score is the edit-distance similarity `(maxl - d) / maxl` plus a
/// prefix bonus of `p / 10` of the distance remainder, scaled by the
/// length-ratio penalty `0.7 + 0.3 * minl / maxl`, all in exact integer
/// arithmetic with one final truncating division.
pub open spec fn scaled_similarity(a: Seq<char>, b: Seq<char>) -> int {
    if a.len() == 0 || b.len() == 0 || a.len() > SIMILARITY_LEN_LIMIT || b.len()
        > SIMILARITY_LEN_LIMIT {
        0
    } else {
        let maxl = if a.len() >= b.len() {
            a.len() as int
        } else {
            b.len() as int
        };
        let minl = if a.len() >= b.len() {
            b.len() as int
        } else {
            a.len() as int
        };
        let d = edit_distance(a, b) as int;
        let p = prefix_weight(a, b) as int;
        ((maxl - d) * 10 + p * d) * (7 * maxl + 3 * minl) * 10000 / (maxl * maxl)
    }
}

/// The similarity of two raw strings: the scaled similarity of their
/// normalized forms.
pub open spec fn spec_similarity(a: Seq<char>, b: Seq<char>) -> int {
    scaled_similarity(normalized(a), normalized(b))
}

/// The scaled similarity of any two sequences lies between zero and the
/// exact-match score, and a sequence scores the full scale against
/// itself (when non-empty and within the length limit).
pub proof fn lemma_scaled_similarity_range(a: Seq<char>, b: Seq<char>)
    ensures
        0 <= scaled_similarity(a, b) <= SIMILARITY_SCALE,
        a == b && 0 < a.len() <= SIMILARITY_LEN_LIMIT ==> scaled_similarity(a, b)
            == SIMILARITY_SCALE,
{
    if a.len() == 0 || b.len() == 0 || a.len() > SIMILARITY_LEN_LIMIT || b.len()
        > SIMILARITY_LEN_LIMIT {
    } else {
        let maxl = if a.len() >= b.len() {
            a.len() as int
        } else {
            b.len() as int
        };
        let minl = if a.len() >= b.len() {
            b.len() as int
        } else {
            a.len() as int
        };
        let d = edit_distance(a, b) as int;
        let p = prefix_weight(a, b) as int;
        lemma_edit_distance_le_max(a, b);
        let w1 = (maxl - d) * 10 + p * d;
        let w2 = 7 * maxl + 3 * minl;
        lemma_mul_inequality(p, 4, d);
        lemma_mul_nonnegative(p, d);
        assert(w1 <= 10 * maxl);
        assert(0 <= w1);
        assert(0 < w2 <= 10 * maxl);
        lemma_mul_upper_bound(w1, 10 * maxl, w2, 10 * maxl);
        lemma_mul_nonnegative(w1, w2);
        assert((10 * maxl) * (10 * maxl) == 100 * (maxl * maxl)) by (nonlinear_arith);
        lemma_mul_nonnegative(maxl, maxl);
        lemma_mul_inequality(w1 * w2, 100 * (maxl * maxl), 10000);
        lemma_mul_is_commutative(w1 * w2, 10000);
        lemma_mul_is_commutative(100 * (maxl * maxl), 10000);
        assert(w1 * w2 * 10000 <= 1000000 * (maxl * maxl));
        lemma_mul_nonnegative(w1 * w2, 10000);
        assert(0 < maxl * maxl) by (nonlinear_arith)
            requires 0 < maxl;
        lemma_div_pos_is_pos(w1 * w2 * 10000, maxl * maxl);
        lemma_div_is_ordered(w1 * w2 * 10000, 1000000 * (maxl * maxl), maxl * maxl);
        lemma_div_multiples_vanish(1000000, maxl * maxl);
        lemma_mul_is_commutative(1000000, maxl * maxl);
        if a == b && 0 < a.len() <= SIMILARITY_LEN_LIMIT {
            lemma_edit_distance_self(a);
            assert(w1 == 10 * maxl && w2 == 10 * maxl);
            assert(w1 * w2 * 10000 == 1000000 * (maxl * maxl)) by (nonlinear_arith)
                requires w1 == 10 * maxl, w2 == 10 * maxl;
        }
    }
}

/// Scores two raw strings: normalizes both, then evaluates the scaled
/// similarity exactly.  The score is always in `[0, SIMILARITY_SCALE]`;
/// equal inputs with a usable normalized form score the full scale, and
/// an empty input scores zero against everything.
pub fn calculate_similarity(ocr_text: &str, augment_name: &str) -> (r: u32)
    ensures
        r == spec_similarity(ocr_text@, augment_name@),
        r <= SIMILARITY_SCALE,
        normalized(ocr_text@) == normalized(augment_name@) && 0 < normalized(
            ocr_text@).len() <= SIMILARITY_LEN_LIMIT ==> r == SIMILARITY_SCALE,
        ocr_text@.len() == 0 ==> r == 0,
        augment_name@.len() == 0 ==> r == 0,
{
    proof {
        lemma_scaled_similarity_range(normalized(ocr_text@), normalized(augment_name@));
        if ocr_text@.len() == 0 {
            reveal(Seq::<_>::filter);
            assert(kept_chars(ocr_text@).len() == 0);
        }
        if augment_name@.len() == 0 {
            reveal(Seq::<_>::filter);
            assert(kept_chars(augment_name@).len() == 0);
        }
    }
    let na = normalize_text(ocr_text);
    let nb = normalize_text(augment_name);
    let va = chars_vec(na.as_str());
    let vb = chars_vec(nb.as_str());
    if va.len() == 0 || vb.len() == 0 {
        return 0;
    }
    if va.len() > SIMILARITY_LEN_LIMIT || vb.len() > SIMILARITY_LEN_LIMIT {
        return 0;
    }
    let maxl: usize = if va.len() >= vb.len() {
        va.len()
    } else {
        vb.len()
    };
    let minl: usize = if va.len() >= vb.len() {
        vb.len()
    } else {
        va.len()
    };
    let d: usize = edit_distance_impl(&va, &vb);
    let p: usize = prefix_weight_impl(&va, &vb);
    proof {
        lemma_edit_distance_le_max(va@, vb@);
        assert(d <= maxl);
        lemma_mul_upper_bound(p as int, 4, d as int, 100000);
    }
    let w1: u64 = (maxl as u64 - d as u64) * 10 + (p as u64) * (d as u64);
    let w2: u64 = 7 * (maxl as u64) + 3 * (minl as u64);
    proof {
        lemma_mul_inequality(p as int, 4, d as int);
        lemma_mul_nonnegative(p as int, d as int);
        assert(w1 <= 10 * maxl);
        lemma_mul_upper_bound(w1 as int, 10 * maxl as int, w2 as int, 10 * maxl as int);
        lemma_mul_nonnegative(w1 as int, w2 as int);
        assert((10 * maxl as int) * (10 * maxl as int) == 100 * (maxl as int * maxl as int))
            by (nonlinear_arith);
        assert(maxl as int * maxl as int <= 10000000000) by (nonlinear_arith)
            requires maxl as int <= 100000;
        lemma_mul_inequality(w1 as int * w2 as int, 100 * (maxl as int * maxl as int), 10000);
        lemma_mul_is_commutative(w1 as int * w2 as int, 10000);
        lemma_mul_is_commutative(100 * (maxl as int * maxl as int), 10000);
    }
    let num: u64 = w1 * w2 * 10000;
    let den: u64 = (maxl as u64) * (maxl as u64);
    proof {
        assert((maxl as int) * (maxl as int) >= 1) by (nonlinear_arith)
            requires maxl as int >= 1;
    }
    let r64: u64 = num / den;
    proof {
        lemma_div_is_ordered(num as int, 1000000 * (den as int), den as int);
        lemma_div_multiples_vanish(1000000, den as int);
        lemma_mul_is_commutative(1000000, den as int);
    }
    r64 as u32
}

} // verus!
