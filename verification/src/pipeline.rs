//! Detection pipeline: per-tick card processing and overlay
//! reconciliation.
//!
//! Each capture tick hands this module the text fragments recognized on
//! each of the three cards.  Per card it assembles a title, resolves it
//! against the dataset under the fixed threshold and source language,
//! and joins the match with the tracked champion's statistics; the
//! resulting per-slot displays are then translated into the command
//! sequence sent to the overlay panels.

use vstd::prelude::*;

verus! {

use crate::dataset::{MayhemData, Champion, Language, lang_name};
use crate::matcher::{AugmentMatch, find_augment, match_value, is_match_result};
use crate::title::{extract_title_from_ocr, title_spec, frag_views};
use crate::text::{lowercase_of, lowercase_str};

/// Similarity a fuzzy match must reach, in parts per million.
pub const SIMILARITY_THRESHOLD: u32 = 850000;

/// Vertical tolerance, in pixels of the card image, for fragments that
/// still belong to the title line.
pub const TITLE_Y_TOLERANCE: i32 = 10;

/// The tracked champion's statistics for one augment, as displayed.
#[derive(Debug)]
pub struct ChampionStats {
    pub name: String,
    pub tier: String,
    pub popularity: String,
    pub games: i32,
}

/// Everything one annotation panel displays for a matched augment.
#[derive(Debug)]
pub struct AugmentDisplay {
    pub name: String,
    pub tier: String,
    pub popularity: String,
    pub games: i32,
    pub champion: Option<ChampionStats>,
}

/// One command for the overlay panels, applied in send order.
#[derive(Debug)]
pub enum OverlayEvent {
    Update { index: usize, data: Option<AugmentDisplay>, x: i32, y: i32 },
    Show(usize),
    Hide(usize),
    HideAll,
}

/// The abstract views of owned recognition fragments.
pub open spec fn owned_frag_views(items: Seq<(String, i32, i32)>) -> Seq<(Seq<char>, int, int)> {
    Seq::new(items.len(), |i: int| (items[i].0@, items[i].1 as int, items[i].2 as int))
}

/// Index of the first champion entry with the given key, `-1` if none.
pub open spec fn first_champ_entry(entries: Seq<(String, Vec<Champion>)>, key: Seq<char>) -> int
    decreases entries.len(),
{
    if entries.len() == 0 {
        -1
    } else if entries[0].0@ == key {
        0
    } else {
        let r = first_champ_entry(entries.skip(1), key);
        if r == -1 {
            -1
        } else {
            r + 1
        }
    }
}

/// Index of the first record for the given augment id, `-1` if none.
pub open spec fn first_champ_rec(recs: Seq<Champion>, id: int) -> int
    decreases recs.len(),
{
    if recs.len() == 0 {
        -1
    } else if recs[0].id == id {
        0
    } else {
        let r = first_champ_rec(recs.skip(1), id);
        if r == -1 {
            -1
        } else {
            r + 1
        }
    }
}

/// The dataset's record for one champion (by lowercased key) and one
/// augment id, if any.
pub open spec fn champ_info_spec(data: MayhemData, key: Seq<char>, id: int) -> Option<Champion> {
    let e = first_champ_entry(data.champions@, key);
    if e == -1 {
        Option::None
    } else {
        let r = first_champ_rec(data.champions@[e].1@, id);
        if r == -1 {
            Option::None
        } else {
            Option::Some(data.champions@[e].1@[r])
        }
    }
}

/// A scan seeing no key match up to `i` and one at `i` (or none at all)
/// pins down the first matching entry.
proof fn lemma_first_champ_entry_at(entries: Seq<(String, Vec<Champion>)>, key: Seq<char>, i: int)
    requires
        0 <= i <= entries.len(),
        forall|j: int| 0 <= j < i ==> (#[trigger] entries[j]).0@ != key,
        i < entries.len() ==> entries[i].0@ == key,
    ensures
        first_champ_entry(entries, key) == if i == entries.len() {
            -1int
        } else {
            i
        },
    decreases i,
{
    if i == 0 {
    } else {
        lemma_first_champ_entry_at(entries.skip(1), key, i - 1);
    }
}

/// A scan seeing no id match up to `i` and one at `i` (or none at all)
/// pins down the first matching record.
proof fn lemma_first_champ_rec_at(recs: Seq<Champion>, id: int, i: int)
    requires
        0 <= i <= recs.len(),
        forall|j: int| 0 <= j < i ==> (#[trigger] recs[j]).id != id,
        i < recs.len() ==> recs[i].id == id,
    ensures
        first_champ_rec(recs, id) == if i == recs.len() {
            -1int
        } else {
            i
        },
    decreases i,
{
    if i == 0 {
    } else {
        lemma_first_champ_rec_at(recs.skip(1), id, i - 1);
    }
}

/// Looks up the champion's record for one augment id, by the lowercased
/// champion key.
fn champion_info<'a>(data: &'a MayhemData, key: &String, id: i32) -> (r: Option<&'a Champion>)
    ensures
        match r {
            Option::Some(c) => champ_info_spec(*data, key@, id as int) == Option::Some(*c),
            Option::None => champ_info_spec(*data, key@, id as int) is None,
        },
{
    let n: usize = data.champions.len();
    let mut i: usize = 0;
    while i < n
        invariant
            n == data.champions@.len(),
            i <= n,
            forall|j: int| 0 <= j < i ==> (#[trigger] data.champions@[j]).0@ != key@,
        decreases n - i,
    {
        if data.champions[i].0 == *key {
            let recs = &data.champions[i].1;
            let rn: usize = recs.len();
            let mut j: usize = 0;
            while j < rn
                invariant
                    n == data.champions@.len(),
                    i < n,
                    data.champions@[i as int].0@ == key@,
                    forall|jj: int| 0 <= jj < i ==> (#[trigger] data.champions@[jj]).0@ != key@,
                    recs == &data.champions@[i as int].1,
                    rn == recs@.len(),
                    j <= rn,
                    forall|k: int| 0 <= k < j ==> (#[trigger] recs@[k]).id != id,
                decreases rn - j,
            {
                if recs[j].id == id {
                    proof {
                        lemma_first_champ_entry_at(data.champions@, key@, i as int);
                        lemma_first_champ_rec_at(recs@, id as int, j as int);
                    }
                    return Option::Some(&recs[j]);
                }
                j += 1;
            }
            proof {
                lemma_first_champ_entry_at(data.champions@, key@, i as int);
                lemma_first_champ_rec_at(recs@, id as int, rn as int);
            }
            return Option::None;
        }
        i += 1;
    }
    proof {
        lemma_first_champ_entry_at(data.champions@, key@, n as int);
    }
    Option::None
}

/// What the champion-statistics block of a display guarantees: it names
/// the tracked champion, and carries the dataset's record for that
/// champion (keyed by its lowercased name) and the augment — or the
/// placeholder dash and zero when the dataset has none.
pub open spec fn champ_stats_ok(
    data: MayhemData,
    champ: Seq<char>,
    id: int,
    cs: ChampionStats,
) -> bool {
    &&& cs.name@ == champ
    &&& match champ_info_spec(data, lowercase_of(champ), id) {
        Option::Some(c) => cs.tier@ == c.tier@ && cs.popularity@ == c.popularity@ && cs.games
            == c.games,
        Option::None => cs.tier@ == "-"@ && cs.popularity@ == "-"@ && cs.games == 0,
    }
}

/// Builds the champion-statistics block for one matched augment.
fn build_champion_stats(data: &MayhemData, champion: &str, id: i32) -> (cs: ChampionStats)
    ensures
        champ_stats_ok(*data, champion@, id as int, cs),
{
    let champ_lower = lowercase_str(champion);
    match champion_info(data, &champ_lower, id) {
        Option::Some(c) => ChampionStats {
            name: String::from_str(champion),
            tier: c.tier.clone(),
            popularity: c.popularity.clone(),
            games: c.games,
        },
        Option::None => ChampionStats {
            name: String::from_str(champion),
            tier: String::from_str("-"),
            popularity: String::from_str("-"),
            games: 0,
        },
    }
}

/// What a slot's display guarantees for a match `m`: the augment's name
/// in the source locale, its tier statistics (dashes and zero standing
/// in for absent values), and the tracked champion's statistics block.
pub open spec fn display_ok(
    data: MayhemData,
    champ: Seq<char>,
    m: AugmentMatch,
    d: AugmentDisplay,
) -> bool {
    &&& d.name@ == lang_name(m.augment.name, Language::KoKr)
    &&& match m.augment.tier {
        Option::Some(t) => d.tier@ == t@,
        Option::None => d.tier@ == "-"@,
    }
    &&& match m.augment.popularity {
        Option::Some(p) => d.popularity@ == p@,
        Option::None => d.popularity@ == "-"@,
    }
    &&& match m.augment.games {
        Option::Some(g) => d.games == g,
        Option::None => d.games == 0,
    }
    &&& d.champion matches Some(cs) && champ_stats_ok(data, champ, m.augment.id as int, cs)
}

/// Builds the display for one matched augment.
fn build_display(data: &MayhemData, champion: &str, m: &AugmentMatch) -> (d: AugmentDisplay)
    ensures
        display_ok(*data, champion@, *m, d),
{
    let stats = build_champion_stats(data, champion, m.augment.id);
    AugmentDisplay {
        name: m.augment.name.ko_kr.clone(),
        tier: match &m.augment.tier {
            Option::Some(t) => t.clone(),
            Option::None => String::from_str("-"),
        },
        popularity: match &m.augment.popularity {
            Option::Some(p) => p.clone(),
            Option::None => String::from_str("-"),
        },
        games: match &m.augment.games {
            Option::Some(g) => *g,
            Option::None => 0,
        },
        champion: Option::Some(stats),
    }
}

/// What one slot's outcome guarantees: no display when the card yielded
/// no frame, an empty title, or no match above the threshold; otherwise
/// a display built from some correct match result.
pub open spec fn slot_display(
    data: MayhemData,
    card: Option<Vec<(String, i32, i32)>>,
    champ: Seq<char>,
    d: Option<AugmentDisplay>,
) -> bool {
    match card {
        Option::None => d is None,
        Option::Some(v) => {
            let title = title_spec(owned_frag_views(v@), TITLE_Y_TOLERANCE as int);
            if title.len() == 0 {
                d is None
            } else {
                match match_value(data, title, Language::KoKr, SIMILARITY_THRESHOLD as int) {
                    Option::None => d is None,
                    Option::Some(_) => d matches Some(disp) && (exists|m: AugmentMatch|
                        is_match_result(data, title, Language::KoKr, SIMILARITY_THRESHOLD as int, m)
                            && #[trigger] display_ok(data, champ, m, disp)),
                }
            }
        },
    }
}

/// Processes the fragments recognized on one card: assembles the title,
/// resolves it, and joins the champion statistics.
fn process_card(
    data: &MayhemData,
    card: &Option<Vec<(String, i32, i32)>>,
    current_champion: &str,
) -> (d: Option<AugmentDisplay>)
    ensures
        slot_display(*data, *card, current_champion@, d),
{
    match card {
        Option::None => Option::None,
        Option::Some(frags) => {
            let n: usize = frags.len();
            let mut items: Vec<(&str, i32, i32)> = Vec::new();
            let mut i: usize = 0;
            while i < n
                invariant
                    n == frags@.len(),
                    i <= n,
                    items@.len() == i,
                    frag_views(items@) =~~= owned_frag_views(frags@.take(i as int)),
                decreases n - i,
            {
                let f = &frags[i];
                let entry = (f.0.as_str(), f.1, f.2);
                let ghost pre = items@;
                items.push(entry);
                proof {
                    assert forall|k: int| 0 <= k <= i as int implies frag_views(items@)[k]
                        == owned_frag_views(frags@.take(i as int + 1))[k] by {
                        if k < i as int {
                            assert(items@[k] == pre[k]);
                            assert(frag_views(pre)[k] == owned_frag_views(
                                frags@.take(i as int))[k]);
                        } else {
                            assert(items@[k] == entry);
                            assert(entry.0@ == frags@[i as int].0@);
                        }
                    }
                    assert(frag_views(items@) =~~= owned_frag_views(frags@.take(i as int + 1)));
                }
                i += 1;
            }
            proof {
                assert(frags@.take(n as int) =~= frags@);
                assert(frag_views(items@) == owned_frag_views(frags@));
            }
            let title = extract_title_from_ocr(items.as_slice(), TITLE_Y_TOLERANCE);
            if title.as_str().is_empty() {
                return Option::None;
            }
            match find_augment(data, title.as_str(), Language::KoKr, SIMILARITY_THRESHOLD) {
                Option::None => Option::None,
                Option::Some(m) => {
                    let d = build_display(data, current_champion, &m);
                    proof {
                        let ghost title_view = title_spec(
                            owned_frag_views(frags@), TITLE_Y_TOLERANCE as int);
                        assert(is_match_result(
                            *data, title_view, Language::KoKr, SIMILARITY_THRESHOLD as int, m)
                            && display_ok(*data, current_champion@, m, d));
                    }
                    Option::Some(d)
                },
            }
        },
    }
}

/// Processes the three cards of one capture tick: per card, assembles a
/// title from the recognized fragments (absent fragments mean no frame
/// or failed recognition for that card alone), resolves it against the
/// dataset, and joins the tracked champion's statistics.  Also reports
/// whether any slot matched.
pub fn process_cards(
    data: &MayhemData,
    cards: &[Option<Vec<(String, i32, i32)>>; 3],
    current_champion: &str,
) -> (r: ([Option<AugmentDisplay>; 3], bool))
    ensures
        forall|i: int| 0 <= i < 3 ==> slot_display(
            *data, cards@[i], current_champion@, #[trigger] r.0@[i]),
        r.1 <==> exists|i: int| 0 <= i < 3 && #[trigger] r.0@[i] is Some,
{
    let d0 = process_card(data, &cards[0], current_champion);
    let d1 = process_card(data, &cards[1], current_champion);
    let d2 = process_card(data, &cards[2], current_champion);
    let found_any = d0.is_some() || d1.is_some() || d2.is_some();
    let arr = [d0, d1, d2];
    proof {
        assert(slot_display(*data, cards@[0], current_champion@, arr@[0]));
        assert(slot_display(*data, cards@[1], current_champion@, arr@[1]));
        assert(slot_display(*data, cards@[2], current_champion@, arr@[2]));
        if found_any {
            if arr@[0] is Some {
            } else if arr@[1] is Some {
            } else {
                assert(arr@[2] is Some);
            }
        }
    }
    (arr, found_any)
}

/// The overlay commands for one slot: update and show a matched slot at
/// its anchor point, hide an unmatched one.
pub open spec fn slot_events(
    a: Option<AugmentDisplay>,
    idx: usize,
    pos: (i32, i32),
) -> Seq<OverlayEvent> {
    match a {
        Option::Some(d) => seq![
            OverlayEvent::Update { index: idx, data: Option::Some(d), x: pos.0, y: pos.1 },
            OverlayEvent::Show(idx),
        ],
        Option::None => seq![OverlayEvent::Hide(idx)],
    }
}

/// Translates one tick's per-slot results (the three slots in order)
/// into the command sequence for the overlay panels: when any slot
/// matched, an update-and-show per matched slot and a hide per
/// unmatched slot, in slot order; when no slot matched, one hide-all
/// command instead.
pub fn plan_overlay_events(
    a0: Option<AugmentDisplay>,
    a1: Option<AugmentDisplay>,
    a2: Option<AugmentDisplay>,
    positions: &[(i32, i32); 3],
    found_any: bool,
) -> (r: Vec<OverlayEvent>)
    ensures
        !found_any ==> r@ =~= seq![OverlayEvent::HideAll],
        found_any ==> r@ =~= slot_events(a0, 0, positions@[0]) + slot_events(
            a1, 1, positions@[1]) + slot_events(a2, 2, positions@[2]),
{
    let mut events: Vec<OverlayEvent> = Vec::new();
    if !found_any {
        events.push(OverlayEvent::HideAll);
        return events;
    }
    match a0 {
        Option::Some(d) => {
            events.push(OverlayEvent::Update {
                index: 0,
                data: Option::Some(d),
                x: positions[0].0,
                y: positions[0].1,
            });
            events.push(OverlayEvent::Show(0));
        },
        Option::None => {
            events.push(OverlayEvent::Hide(0));
        },
    }
    match a1 {
        Option::Some(d) => {
            events.push(OverlayEvent::Update {
                index: 1,
                data: Option::Some(d),
                x: positions[1].0,
                y: positions[1].1,
            });
            events.push(OverlayEvent::Show(1));
        },
        Option::None => {
            events.push(OverlayEvent::Hide(1));
        },
    }
    match a2 {
        Option::Some(d) => {
            events.push(OverlayEvent::Update {
                index: 2,
                data: Option::Some(d),
                x: positions[2].0,
                y: positions[2].1,
            });
            events.push(OverlayEvent::Show(2));
        },
        Option::None => {
            events.push(OverlayEvent::Hide(2));
        },
    }
    events
}

} // verus!
