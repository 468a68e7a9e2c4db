use mayhem_advisor::dataset::{Augment, Champion, MayhemData, Name};
use mayhem_advisor::pipeline::{plan_overlay_events, process_cards, OverlayEvent};

fn name_for(s: &str) -> Name {
    Name {
        ar_ae: s.to_string(),
        cs_cz: s.to_string(),
        de_de: s.to_string(),
        el_gr: s.to_string(),
        en_au: s.to_string(),
        en_gb: s.to_string(),
        en_ph: s.to_string(),
        en_sg: s.to_string(),
        es_ar: s.to_string(),
        es_es: s.to_string(),
        es_mx: s.to_string(),
        fr_fr: s.to_string(),
        hu_hu: s.to_string(),
        id_id: s.to_string(),
        it_it: s.to_string(),
        ja_jp: s.to_string(),
        ko_kr: s.to_string(),
        pl_pl: s.to_string(),
        pt_br: s.to_string(),
        ro_ro: s.to_string(),
        ru_ru: s.to_string(),
        th_th: s.to_string(),
        tr_tr: s.to_string(),
        vi_vn: s.to_string(),
        zh_cn: s.to_string(),
        zh_my: s.to_string(),
        zh_tw: s.to_string(),
    }
}

fn sample_data() -> MayhemData {
    let augments = vec![
        Augment {
            id: 1,
            name: name_for("Heavy Hitter"),
            tier: Some("S".to_string()),
            popularity: Some("21%".to_string()),
            games: Some(1200),
        },
        Augment {
            id: 2,
            name: name_for("Glass Cannon"),
            tier: None,
            popularity: None,
            games: None,
        },
    ];
    let champions = vec![(
        "aatrox".to_string(),
        vec![
            Champion { id: 1, tier: "A".to_string(), popularity: "9%".to_string(), games: 77 },
        ],
    )];
    MayhemData { champions, augments }
}

fn frags(texts: &[(&str, i32, i32)]) -> Vec<(String, i32, i32)> {
    texts.iter().map(|(t, top, left)| (t.to_string(), *top, *left)).collect()
}

#[test]
fn process_cards_matches_exact_titles_and_skips_empty() {
    let data = sample_data();
    let cards = [
        Some(frags(&[("Heavy ", 0, 0), ("Hitter", 2, 60)])),
        Some(frags(&[("   ", 0, 0)])),
        Some(frags(&[("Glass Cannon!", 0, 0)])),
    ];
    let (displays, found_any) = process_cards(&data, &cards, "Aatrox");
    assert!(found_any);
    let d0 = displays[0].as_ref().expect("slot 0 should match");
    assert_eq!(d0.name, "Heavy Hitter");
    assert_eq!(d0.tier, "S");
    assert_eq!(d0.popularity, "21%");
    assert_eq!(d0.games, 1200);
    let cs = d0.champion.as_ref().expect("champion stats expected");
    assert_eq!(cs.name, "Aatrox");
    assert_eq!(cs.tier, "A");
    assert_eq!(cs.popularity, "9%");
    assert_eq!(cs.games, 77);
    assert!(displays[1].is_none());
    let d2 = displays[2].as_ref().expect("slot 2 should match");
    assert_eq!(d2.name, "Glass Cannon");
    assert_eq!(d2.tier, "-");
    assert_eq!(d2.popularity, "-");
    assert_eq!(d2.games, 0);
    let cs2 = d2.champion.as_ref().expect("champion stats expected");
    // No record for augment 2 on this champion: placeholders.
    assert_eq!(cs2.tier, "-");
    assert_eq!(cs2.games, 0);
}

#[test]
fn process_cards_absent_frames_and_unknown_titles_yield_nothing() {
    let data = sample_data();
    let cards = [None, Some(frags(&[("no such augment here", 0, 0)])), None];
    let (displays, found_any) = process_cards(&data, &cards, "Aatrox");
    assert!(!found_any);
    assert!(displays.iter().all(|d| d.is_none()));
}

#[test]
fn end_to_end_two_matches_one_empty_title() {
    // Two cards read known augment names exactly, one card's text is
    // blank: the tick shows and updates two panels and hides one.
    let data = sample_data();
    let cards = [
        Some(frags(&[("Heavy Hitter", 0, 0)])),
        Some(frags(&[("  ", 0, 0)])),
        Some(frags(&[("Glass Cannon", 0, 0)])),
    ];
    let (displays, found_any) = process_cards(&data, &cards, "Aatrox");
    assert!(found_any);
    let [d0, d1, d2] = displays;
    let positions = [(10, 20), (30, 20), (50, 20)];
    let events = plan_overlay_events(d0, d1, d2, &positions, found_any);
    assert_eq!(events.len(), 5);
    match &events[0] {
        OverlayEvent::Update { index, data, x, y } => {
            assert_eq!(*index, 0);
            assert_eq!(data.as_ref().unwrap().name, "Heavy Hitter");
            assert_eq!((*x, *y), (10, 20));
        }
        other => panic!("unexpected event {:?}", other),
    }
    assert!(matches!(events[1], OverlayEvent::Show(0)));
    assert!(matches!(events[2], OverlayEvent::Hide(1)));
    match &events[3] {
        OverlayEvent::Update { index, data, x, y } => {
            assert_eq!(*index, 2);
            assert_eq!(data.as_ref().unwrap().name, "Glass Cannon");
            assert_eq!((*x, *y), (50, 20));
        }
        other => panic!("unexpected event {:?}", other),
    }
    assert!(matches!(events[4], OverlayEvent::Show(2)));
}

#[test]
fn no_match_at_all_yields_single_hide_all() {
    let data = sample_data();
    let cards = [Some(frags(&[("nothing known", 0, 0)])), None, None];
    let (displays, found_any) = process_cards(&data, &cards, "Aatrox");
    assert!(!found_any);
    let [d0, d1, d2] = displays;
    let positions = [(0, 0), (0, 0), (0, 0)];
    let events = plan_overlay_events(d0, d1, d2, &positions, found_any);
    assert_eq!(events.len(), 1);
    assert!(matches!(events[0], OverlayEvent::HideAll));
}

#[test]
fn punctuated_title_still_matches_exactly() {
    // Punctuation is normalized away, so the exact path still hits.
    let data = sample_data();
    let cards = [Some(frags(&[("Heavy Hitter!", 0, 0)])), None, None];
    let (displays, found_any) = process_cards(&data, &cards, "Aatrox");
    assert!(found_any);
    assert_eq!(displays[0].as_ref().unwrap().name, "Heavy Hitter");
}

#[test]
fn fuzzy_title_still_matches_above_threshold() {
    // A one-character recognition error within the threshold resolves.
    let data = sample_data();
    let cards = [Some(frags(&[("Heavy Hitterz", 0, 0)])), None, None];
    let (displays, found_any) = process_cards(&data, &cards, "Aatrox");
    assert!(found_any);
    assert_eq!(displays[0].as_ref().unwrap().name, "Heavy Hitter");
}
