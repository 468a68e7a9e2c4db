//! Title assembler: reduces the text fragments recognized on one card to
//! a single title string.
//!
//! The title is assumed to occupy the topmost text line(s) of the card:
//! only fragments whose top edge lies within a vertical tolerance of the
//! topmost fragment are kept; they are ordered left to right (stably) and
//! their trimmed texts are joined without a separator.

use vstd::prelude::*;

verus! {

use crate::text::{unicode_whitespace, is_whitespace_char};

/// The abstract view of one recognition fragment: its text, the top of
/// its bounding box, and the left of its bounding box, in the coordinate
/// space of the card image.
pub open spec fn frag_view(f: (&str, i32, i32)) -> (Seq<char>, int, int) {
    (f.0@, f.1 as int, f.2 as int)
}

/// The abstract views of a sequence of recognition fragments.
pub open spec fn frag_views(items: Seq<(&str, i32, i32)>) -> Seq<(Seq<char>, int, int)> {
    Seq::new(items.len(), |i: int| frag_view(items[i]))
}

/// The least top coordinate among the fragments (zero for no fragments).
pub open spec fn min_top(frags: Seq<(Seq<char>, int, int)>) -> int
    decreases frags.len(),
{
    if frags.len() == 0 {
        0
    } else if frags.len() == 1 {
        frags[0].1
    } else {
        let m = min_top(frags.drop_last());
        if frags.last().1 < m {
            frags.last().1
        } else {
            m
        }
    }
}

/// The fragments within the vertical tolerance band of the topmost one.
pub open spec fn title_band(frags: Seq<(Seq<char>, int, int)>, tol: int) -> Seq<
    (Seq<char>, int, int),
> {
    frags.filter(|f: (Seq<char>, int, int)| f.1 <= min_top(frags) + tol)
}

/// Inserts a fragment into a sequence ordered by the left coordinate,
/// before the first fragment that is not strictly to its left — so a
/// fragment inserted earlier stays before later ones with the same left
/// coordinate.
pub open spec fn insert_by_left(
    f: (Seq<char>, int, int),
    s: Seq<(Seq<char>, int, int)>,
) -> Seq<(Seq<char>, int, int)>
    decreases s.len(),
{
    if s.len() == 0 {
        seq![f]
    } else if f.2 <= s[0].2 {
        seq![f] + s
    } else {
        seq![s[0]] + insert_by_left(f, s.skip(1))
    }
}

/// Stable sort of the fragments by their left coordinate, ascending.
pub open spec fn sort_by_left(s: Seq<(Seq<char>, int, int)>) -> Seq<(Seq<char>, int, int)>
    decreases s.len(),
{
    if s.len() == 0 {
        Seq::empty()
    } else {
        insert_by_left(s[0], sort_by_left(s.skip(1)))
    }
}

/// `s` with its leading whitespace removed.
pub open spec fn drop_leading_ws(s: Seq<char>) -> Seq<char>
    decreases s.len(),
{
    if s.len() > 0 && unicode_whitespace(s[0]) {
        drop_leading_ws(s.skip(1))
    } else {
        s
    }
}

/// `s` with its trailing whitespace removed.
pub open spec fn drop_trailing_ws(s: Seq<char>) -> Seq<char>
    decreases s.len(),
{
    if s.len() > 0 && unicode_whitespace(s.last()) {
        drop_trailing_ws(s.drop_last())
    } else {
        s
    }
}

/// `s` with leading and trailing whitespace removed.
pub open spec fn trim_spec(s: Seq<char>) -> Seq<char> {
    drop_trailing_ws(drop_leading_ws(s))
}

/// The trimmed texts of the fragments, joined without a separator.
pub open spec fn concat_trimmed(frags: Seq<(Seq<char>, int, int)>) -> Seq<char>
    decreases frags.len(),
{
    if frags.len() == 0 {
        Seq::empty()
    } else {
        concat_trimmed(frags.drop_last()) + trim_spec(frags.last().0)
    }
}

/// The assembled title: the trimmed texts of the fragments within the
/// tolerance band of the topmost fragment, ordered by left coordinate
/// ascending (stably), joined without a separator.  No fragments yield
/// the empty title.
pub open spec fn title_spec(frags: Seq<(Seq<char>, int, int)>, tol: int) -> Seq<char> {
    if frags.len() == 0 {
        Seq::empty()
    } else {
        concat_trimmed(sort_by_left(title_band(frags, tol)))
    }
}

/// Dropping leading whitespace removes exactly the whitespace prefix.
proof fn lemma_drop_leading_at(s: Seq<char>, i: int)
    requires
        0 <= i <= s.len(),
        forall|k: int| 0 <= k < i ==> unicode_whitespace(s[k]),
        i < s.len() ==> !unicode_whitespace(s[i]),
    ensures
        drop_leading_ws(s) == s.skip(i),
    decreases i,
{
    if i == 0 {
        assert(s.skip(0) =~= s);
    } else {
        lemma_drop_leading_at(s.skip(1), i - 1);
        assert(s.skip(1).skip(i - 1) =~= s.skip(i));
    }
}

/// Dropping trailing whitespace removes exactly the whitespace suffix.
proof fn lemma_drop_trailing_at(s: Seq<char>, e: int)
    requires
        0 <= e <= s.len(),
        forall|k: int| e <= k < s.len() ==> unicode_whitespace(s[k]),
        e > 0 ==> !unicode_whitespace(s[e - 1]),
    ensures
        drop_trailing_ws(s) == s.take(e),
    decreases s.len(),
{
    if e == s.len() {
        if s.len() > 0 {
            assert(s.take(e) =~= s);
        } else {
            assert(s.take(0) =~= s);
        }
    } else {
        lemma_drop_trailing_at(s.drop_last(), e);
        assert(s.drop_last().take(e) =~= s.take(e));
    }
}

/// Inserting before the first fragment not strictly to the left splits
/// the sequence at that position.
proof fn lemma_insert_at(
    f: (Seq<char>, int, int),
    s: Seq<(Seq<char>, int, int)>,
    k: int,
)
    requires
        0 <= k <= s.len(),
        forall|j: int| 0 <= j < k ==> (#[trigger] s[j]).2 < f.2,
        k < s.len() ==> f.2 <= s[k].2,
    ensures
        insert_by_left(f, s) == s.take(k) + seq![f] + s.skip(k),
    decreases k,
{
    if k == 0 {
        if s.len() == 0 {
            assert(insert_by_left(f, s) =~= s.take(0) + seq![f] + s.skip(0));
        } else {
            assert(s.take(0) + seq![f] + s.skip(0) =~= seq![f] + s);
        }
    } else {
        lemma_insert_at(f, s.skip(1), k - 1);
        assert(s.skip(1).take(k - 1) =~= s.take(k).skip(1));
        assert(s.skip(1).skip(k - 1) =~= s.skip(k));
        assert(seq![s[0]] + (s.skip(1).take(k - 1) + seq![f] + s.skip(1).skip(k - 1)) =~= s.take(k)
            + seq![f] + s.skip(k));
    }
}

/// Trims leading and trailing whitespace from a string slice.
fn trim_str<'a>(s: &'a str) -> (r: &'a str)
    ensures
        r@ == trim_spec(s@),
{
    let n: usize = s.unicode_len();
    let mut start: usize = 0;
    while start < n && is_whitespace_char(s.get_char(start))
        invariant
            n == s@.len(),
            start <= n,
            forall|k: int| 0 <= k < start ==> unicode_whitespace(s@[k]),
        decreases n - start,
    {
        start += 1;
    }
    let mut end: usize = n;
    while end > start && is_whitespace_char(s.get_char(end - 1))
        invariant
            n == s@.len(),
            start <= end <= n,
            forall|k: int| end <= k < n ==> unicode_whitespace(s@[k]),
        decreases end,
    {
        end -= 1;
    }
    let r = s.substring_char(start, end);
    proof {
        lemma_drop_leading_at(s@, start as int);
        let t = s@.skip(start as int);
        lemma_drop_trailing_at(t, end - start);
        assert(s@.subrange(start as int, end as int) =~= t.take(end - start));
    }
    r
}

/// Assembles a card title from the fragments recognized on the card:
/// each fragment is its text with the top and left of its bounding box.
/// Fragments lower than the topmost fragment by more than `y_threshold`
/// are discarded; the rest are ordered by their left coordinate and their
/// trimmed texts are joined.  An empty fragment list yields the empty
/// title.
pub fn extract_title_from_ocr(items: &[(&str, i32, i32)], y_threshold: i32) -> (r: String)
    ensures
        r@ == title_spec(frag_views(items@), y_threshold as int),
        items@.len() == 0 ==> r@.len() == 0,
{
    let n: usize = items.len();
    if n == 0 {
        return String::new();
    }
    let fv = Ghost(frag_views(items@));
    // Least top coordinate.
    let mut mt: i32 = items[0].1;
    let mut i: usize = 1;
    while i < n
        invariant
            n == items@.len(),
            fv@ == frag_views(items@),
            1 <= i <= n,
            mt == min_top(fv@.take(i as int)),
        decreases n - i,
    {
        proof {
            assert(fv@.take(i as int + 1).drop_last() =~= fv@.take(i as int));
            assert(fv@.take(i as int + 1).last() == fv@[i as int]);
        }
        if items[i].1 < mt {
            mt = items[i].1;
        }
        i += 1;
    }
    proof {
        assert(fv@.take(n as int) =~= fv@);
    }
    // Fragments within the tolerance band of the topmost one.
    let ghost pred = |f: (Seq<char>, int, int)| f.1 <= min_top(fv@) + y_threshold as int;
    let mut band: Vec<(&str, i32, i32)> = Vec::new();
    let mut i2: usize = 0;
    while i2 < n
        invariant
            n == items@.len(),
            fv@ == frag_views(items@),
            pred == (|f: (Seq<char>, int, int)| f.1 <= min_top(fv@) + y_threshold as int),
            mt == min_top(fv@),
            i2 <= n,
            frag_views(band@) == fv@.take(i2 as int).filter(pred),
        decreases n - i2,
    {
        proof {
            reveal(Seq::<_>::filter);
            assert(fv@.take(i2 as int + 1).drop_last() =~= fv@.take(i2 as int));
            assert(fv@.take(i2 as int + 1).last() == fv@[i2 as int]);
        }
        let item = items[i2];
        if (item.1 as i64) <= (mt as i64) + (y_threshold as i64) {
            band.push(item);
            proof {
                assert(frag_views(band@) =~= fv@.take(i2 as int).filter(pred).push(
                    frag_view(item)));
            }
        }
        proof {
            assert(frag_views(band@) =~= fv@.take(i2 as int + 1).filter(pred));
        }
        i2 += 1;
    }
    proof {
        assert(fv@.take(n as int) =~= fv@);
        assert(frag_views(band@) == title_band(fv@, y_threshold as int));
    }
    // Stable sort by the left coordinate, ascending.
    let bn: usize = band.len();
    let bv = Ghost(frag_views(band@));
    let mut sorted: Vec<(&str, i32, i32)> = Vec::new();
    let mut i3: usize = bn;
    while i3 > 0
        invariant
            bn == band@.len(),
            bv@ == frag_views(band@),
            i3 <= bn,
            frag_views(sorted@) == sort_by_left(bv@.skip(i3 as int)),
        decreases i3,
    {
        i3 -= 1;
        let f = band[i3];
        let mut idx: usize = 0;
        while idx < sorted.len() && sorted[idx].2 < f.2
            invariant
                idx <= sorted@.len(),
                forall|j: int| 0 <= j < idx ==> (#[trigger] sorted@[j]).2 < f.2,
            decreases sorted@.len() - idx,
        {
            idx += 1;
        }
        let ghost pre = frag_views(sorted@);
        sorted.insert(idx, f);
        proof {
            assert(forall|j: int| 0 <= j < idx ==> (#[trigger] pre[j]).2 < frag_view(f).2);
            lemma_insert_at(frag_view(f), pre, idx as int);
            assert(frag_views(sorted@) =~= pre.take(idx as int) + seq![frag_view(f)] + pre.skip(
                idx as int));
            assert(bv@.skip(i3 as int).skip(1) =~= bv@.skip(i3 as int + 1));
            assert(bv@.skip(i3 as int)[0] == frag_view(f));
            assert(frag_views(sorted@) == sort_by_left(bv@.skip(i3 as int)));
        }
    }
    proof {
        assert(bv@.skip(0) =~= bv@);
    }
    // Join the trimmed texts.
    let sv = Ghost(frag_views(sorted@));
    let sn: usize = sorted.len();
    let mut title = String::new();
    let mut i4: usize = 0;
    while i4 < sn
        invariant
            sn == sorted@.len(),
            sv@ == frag_views(sorted@),
            i4 <= sn,
            title@ == concat_trimmed(sv@.take(i4 as int)),
        decreases sn - i4,
    {
        proof {
            assert(sv@.take(i4 as int + 1).drop_last() =~= sv@.take(i4 as int));
            assert(sv@.take(i4 as int + 1).last() == sv@[i4 as int]);
        }
        let piece = trim_str(sorted[i4].0);
        title.append(piece);
        i4 += 1;
    }
    proof {
        assert(sv@.take(sn as int) =~= sv@);
    }
    title
}

} // verus!
