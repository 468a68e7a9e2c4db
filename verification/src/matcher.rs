//! Knowledge-base matcher: resolves a recognized title to an augment
//! record of the dataset.
//!
//! A first pass looks for an augment whose normalized localized name
//! equals the normalized title; the first such entry wins outright with
//! the full similarity scale, whatever any fuzzy score would say.  Only
//! if no exact hit exists is every record scored, and the best score at
//! or above the threshold wins, earlier entries winning ties.

use vstd::prelude::*;

verus! {

use crate::dataset::{MayhemData, Augment, Language, lang_name, augment_view_eq};
use crate::text::{
    normalized, spec_similarity, calculate_similarity, normalize_text, SIMILARITY_SCALE,
    lemma_scaled_similarity_range,
};

/// A resolved match: an owned copy of the augment record and the
/// similarity that won it, in parts per million.
#[derive(Debug)]
pub struct AugmentMatch {
    pub augment: Augment,
    pub similarity: u32,
}

/// The title matches entry `i` exactly: the normalized forms coincide.
pub open spec fn exact_at(augs: Seq<Augment>, i: int, ocr: Seq<char>, lang: Language) -> bool {
    normalized(ocr) == normalized(lang_name(augs[i].name, lang))
}

/// Some entry matches the title exactly.
pub open spec fn has_exact(augs: Seq<Augment>, ocr: Seq<char>, lang: Language) -> bool {
    exists|i: int| 0 <= i < augs.len() && exact_at(augs, i, ocr, lang)
}

/// The fuzzy similarity of the title against entry `i`'s localized name.
pub open spec fn sim_at(augs: Seq<Augment>, i: int, ocr: Seq<char>, lang: Language) -> int {
    spec_similarity(ocr, lang_name(augs[i].name, lang))
}

/// The greatest fuzzy similarity over all entries (zero when there are
/// none).
pub open spec fn max_sim(augs: Seq<Augment>, ocr: Seq<char>, lang: Language) -> int
    decreases augs.len(),
{
    if augs.len() == 0 {
        0
    } else {
        let rest = max_sim(augs.drop_last(), ocr, lang);
        let s = spec_similarity(ocr, lang_name(augs.last().name, lang));
        if s > rest {
            s
        } else {
            rest
        }
    }
}

/// The similarity the matcher reports for a title, if it reports a
/// match at all: the full scale on an exact hit, else the greatest fuzzy
/// score when that clears the threshold, else nothing.
pub open spec fn match_value(
    data: MayhemData,
    ocr: Seq<char>,
    lang: Language,
    threshold: int,
) -> Option<int> {
    if has_exact(data.augments@, ocr, lang) {
        Option::Some(SIMILARITY_SCALE as int)
    } else if data.augments@.len() > 0 && max_sim(data.augments@, ocr, lang) >= threshold {
        Option::Some(max_sim(data.augments@, ocr, lang))
    } else {
        Option::None
    }
}

/// What a returned match guarantees: on an exact hit, it copies the
/// first exactly-matching entry and carries the full scale; otherwise it
/// copies the earliest entry attaining the greatest fuzzy score, which
/// is at or above the threshold.
pub open spec fn is_match_result(
    data: MayhemData,
    ocr: Seq<char>,
    lang: Language,
    threshold: int,
    m: AugmentMatch,
) -> bool {
    let augs = data.augments@;
    if has_exact(augs, ocr, lang) {
        exists|i: int|
            {
                &&& 0 <= i < augs.len()
                &&& #[trigger] exact_at(augs, i, ocr, lang)
                &&& forall|j: int| 0 <= j < i ==> !exact_at(augs, j, ocr, lang)
                &&& augment_view_eq(m.augment, augs[i])
                &&& m.similarity == SIMILARITY_SCALE
            }
    } else {
        exists|i: int|
            {
                &&& 0 <= i < augs.len()
                &&& #[trigger] sim_at(augs, i, ocr, lang) == m.similarity as int
                &&& m.similarity as int >= threshold
                &&& forall|j: int| 0 <= j < augs.len() ==> sim_at(augs, j, ocr, lang)
                    <= m.similarity as int
                &&& forall|j: int| 0 <= j < i ==> sim_at(augs, j, ocr, lang) < m.similarity as int
                &&& augment_view_eq(m.augment, augs[i])
            }
    }
}

/// The greatest fuzzy score is attained by some entry and bounds every
/// entry's score.
proof fn lemma_max_sim_props(augs: Seq<Augment>, ocr: Seq<char>, lang: Language)
    ensures
        forall|j: int| 0 <= j < augs.len() ==> #[trigger] sim_at(augs, j, ocr, lang) <= max_sim(
            augs, ocr, lang),
        augs.len() > 0 ==> exists|i: int| 0 <= i < augs.len() && #[trigger] sim_at(
            augs, i, ocr, lang) == max_sim(augs, ocr, lang),
    decreases augs.len(),
{
    if augs.len() > 0 {
        lemma_scaled_similarity_range(normalized(ocr), normalized(lang_name(augs.last().name, lang)));
        lemma_max_sim_props(augs.drop_last(), ocr, lang);
        assert forall|j: int| 0 <= j < augs.len() implies #[trigger] sim_at(augs, j, ocr, lang)
            <= max_sim(augs, ocr, lang) by {
            if j < augs.len() - 1 {
                assert(sim_at(augs.drop_last(), j, ocr, lang) == sim_at(augs, j, ocr, lang));
                assert(sim_at(augs.drop_last(), j, ocr, lang) <= max_sim(
                    augs.drop_last(), ocr, lang));
            }
        }
        if augs.len() > 1 {
            let s = spec_similarity(ocr, lang_name(augs.last().name, lang));
            if s > max_sim(augs.drop_last(), ocr, lang) {
                assert(sim_at(augs, augs.len() - 1, ocr, lang) == max_sim(augs, ocr, lang));
            } else {
                let i = choose|i: int| 0 <= i < augs.drop_last().len() && #[trigger] sim_at(
                    augs.drop_last(), i, ocr, lang) == max_sim(augs.drop_last(), ocr, lang);
                assert(sim_at(augs, i, ocr, lang) == max_sim(augs, ocr, lang));
            }
        } else {
            assert(sim_at(augs, 0, ocr, lang) == max_sim(augs, ocr, lang));
        }
    }
}

/// Resolves a recognized title against the dataset.  An exact hit on the
/// normalized forms returns the first such augment with the full
/// similarity scale; otherwise the augment with the greatest fuzzy score
/// is returned if that score reaches `threshold` (parts per million),
/// earlier entries winning ties; otherwise there is no match.
pub fn find_augment(
    data: &MayhemData,
    ocr_text: &str,
    lang: Language,
    threshold: u32,
) -> (r: Option<AugmentMatch>)
    ensures
        r is Some <==> match_value(*data, ocr_text@, lang, threshold as int) is Some,
        r matches Some(m) ==> is_match_result(*data, ocr_text@, lang, threshold as int, m),
        r matches Some(m) ==> Option::Some(m.similarity as int) == match_value(
            *data, ocr_text@, lang, threshold as int),
{
    let n: usize = data.augments.len();
    let nt = normalize_text(ocr_text);
    let mut i: usize = 0;
    while i < n
        invariant
            n == data.augments@.len(),
            nt@ == normalized(ocr_text@),
            i <= n,
            forall|j: int| 0 <= j < i ==> !exact_at(data.augments@, j, ocr_text@, lang),
        decreases n - i,
    {
        let name = data.augments[i].name.get(lang);
        let nn = normalize_text(name);
        if nt == nn {
            let m = AugmentMatch {
                augment: data.augments[i].clone(),
                similarity: SIMILARITY_SCALE as u32,
            };
            proof {
                assert(exact_at(data.augments@, i as int, ocr_text@, lang));
                assert(is_match_result(*data, ocr_text@, lang, threshold as int, m));
            }
            return Option::Some(m);
        }
        i += 1;
    }
    proof {
        assert(!has_exact(data.augments@, ocr_text@, lang));
        lemma_max_sim_props(data.augments@, ocr_text@, lang);
    }
    let mut have: bool = false;
    let mut best_idx: usize = 0;
    let mut best_sim: u32 = 0;
    let mut i2: usize = 0;
    while i2 < n
        invariant
            n == data.augments@.len(),
            i2 <= n,
            !has_exact(data.augments@, ocr_text@, lang),
            have ==> {
                &&& best_idx < i2
                &&& sim_at(data.augments@, best_idx as int, ocr_text@, lang) == best_sim as int
                &&& best_sim >= threshold
                &&& forall|j: int| 0 <= j < i2 ==> sim_at(data.augments@, j, ocr_text@, lang)
                    <= best_sim as int
                &&& forall|j: int| 0 <= j < best_idx ==> sim_at(data.augments@, j, ocr_text@, lang)
                    < best_sim as int
            },
            !have ==> forall|j: int| 0 <= j < i2 ==> sim_at(data.augments@, j, ocr_text@, lang)
                < threshold as int,
        decreases n - i2,
    {
        let name = data.augments[i2].name.get(lang);
        let s = calculate_similarity(ocr_text, name);
        if s >= threshold && (!have || s > best_sim) {
            have = true;
            best_idx = i2;
            best_sim = s;
        }
        i2 += 1;
    }
    if have {
        let m = AugmentMatch {
            augment: data.augments[best_idx].clone(),
            similarity: best_sim,
        };
        proof {
            lemma_max_sim_props(data.augments@, ocr_text@, lang);
            assert(sim_at(data.augments@, best_idx as int, ocr_text@, lang) == best_sim as int);
            assert(max_sim(data.augments@, ocr_text@, lang) == best_sim as int);
            assert(is_match_result(*data, ocr_text@, lang, threshold as int, m));
        }
        Option::Some(m)
    } else {
        proof {
            lemma_max_sim_props(data.augments@, ocr_text@, lang);
        }
        Option::None
    }
}

/// The score the matcher reports for candidate `j` of a list, with `-1`
/// standing for no match.
pub open spec fn cand_score(
    data: MayhemData,
    texts: Seq<String>,
    j: int,
    lang: Language,
    threshold: int,
) -> int {
    match match_value(data, texts[j]@, lang, threshold) {
        Option::Some(v) => v,
        Option::None => -1,
    }
}

/// Runs the matcher over every candidate title and keeps the match with
/// the greatest similarity, later candidates winning ties.  An empty
/// candidate list, or one where no candidate matches, yields no match.
pub fn find_augment_from_candidates(
    data: &MayhemData,
    ocr_texts: Vec<String>,
    lang: Language,
    threshold: u32,
) -> (r: Option<AugmentMatch>)
    ensures
        r is None <==> (forall|j: int| 0 <= j < ocr_texts@.len() ==> #[trigger] cand_score(
            *data, ocr_texts@, j, lang, threshold as int) == -1),
        r matches Some(m) ==> exists|i: int|
            {
                &&& 0 <= i < ocr_texts@.len()
                &&& is_match_result(*data, ocr_texts@[i]@, lang, threshold as int, m)
                &&& #[trigger] cand_score(*data, ocr_texts@, i, lang, threshold as int)
                    == m.similarity as int
                &&& forall|j: int| 0 <= j < ocr_texts@.len() ==> #[trigger] cand_score(
                    *data, ocr_texts@, j, lang, threshold as int) <= m.similarity as int
                &&& forall|j: int| i < j < ocr_texts@.len() ==> #[trigger] cand_score(
                    *data, ocr_texts@, j, lang, threshold as int) < m.similarity as int
            },
{
    let n: usize = ocr_texts.len();
    let mut best: Option<AugmentMatch> = Option::None;
    let ghost mut bi: int = 0;
    let mut i: usize = 0;
    while i < n
        invariant
            n == ocr_texts@.len(),
            i <= n,
            best is None ==> forall|j: int| 0 <= j < i ==> #[trigger] cand_score(
                *data, ocr_texts@, j, lang, threshold as int) == -1,
            best matches Some(b) ==> {
                &&& 0 <= bi < i
                &&& is_match_result(*data, ocr_texts@[bi]@, lang, threshold as int, b)
                &&& cand_score(*data, ocr_texts@, bi, lang, threshold as int) == b.similarity as int
                &&& forall|j: int| 0 <= j < i ==> #[trigger] cand_score(
                    *data, ocr_texts@, j, lang, threshold as int) <= b.similarity as int
                &&& forall|j: int| bi < j < i ==> #[trigger] cand_score(
                    *data, ocr_texts@, j, lang, threshold as int) < b.similarity as int
            },
        decreases n - i,
    {
        let res = find_augment(data, ocr_texts[i].as_str(), lang, threshold);
        match res {
            Option::Some(m) => {
                let replace: bool = match &best {
                    Option::None => true,
                    Option::Some(b) => m.similarity >= b.similarity,
                };
                if replace {
                    best = Option::Some(m);
                    proof {
                        bi = i as int;
                    }
                }
            },
            Option::None => {},
        }
        i += 1;
    }
    best
}

} // verus!
