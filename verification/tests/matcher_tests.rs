use mayhem_advisor::dataset::{Augment, Champion, Language, MayhemData, Name};
use mayhem_advisor::matcher::{find_augment, find_augment_from_candidates};

fn name_for(s: &str) -> Name {
    Name {
        ar_ae: s.to_string(),
        cs_cz: s.to_string(),
        de_de: s.to_string(),
        el_gr: s.to_string(),
        en_au: s.to_string(),
        en_gb: s.to_string(),
        en_ph: s.to_string(),
        en_sg: s.to_string(),
        es_ar: s.to_string(),
        es_es: s.to_string(),
        es_mx: s.to_string(),
        fr_fr: s.to_string(),
        hu_hu: s.to_string(),
        id_id: s.to_string(),
        it_it: s.to_string(),
        ja_jp: s.to_string(),
        ko_kr: s.to_string(),
        pl_pl: s.to_string(),
        pt_br: s.to_string(),
        ro_ro: s.to_string(),
        ru_ru: s.to_string(),
        th_th: s.to_string(),
        tr_tr: s.to_string(),
        vi_vn: s.to_string(),
        zh_cn: s.to_string(),
        zh_my: s.to_string(),
        zh_tw: s.to_string(),
    }
}

fn augment_named(id: i32, s: &str) -> Augment {
    Augment {
        id,
        name: name_for(s),
        tier: Some("S".to_string()),
        popularity: Some("12%".to_string()),
        games: Some(100),
    }
}

fn data_with(augments: Vec<Augment>) -> MayhemData {
    MayhemData { champions: Vec::<(String, Vec<Champion>)>::new(), augments }
}

#[test]
fn exact_entry_wins_over_high_fuzzy_entries() {
    // The exact-name entry wins whatever its position in the dataset.
    let front = data_with(vec![
        augment_named(1, "Cut Down!"),
        augment_named(2, "cutdowns"),
        augment_named(3, "cut down low"),
    ]);
    let m = find_augment(&front, "cutdown", Language::KoKr, 850_000).unwrap();
    assert_eq!(m.augment.id, 1);
    assert_eq!(m.similarity, 1_000_000);

    let back = data_with(vec![
        augment_named(2, "cutdowns"),
        augment_named(3, "cut down low"),
        augment_named(1, "Cut Down!"),
    ]);
    let m = find_augment(&back, "cutdown", Language::KoKr, 850_000).unwrap();
    assert_eq!(m.augment.id, 1);
    assert_eq!(m.similarity, 1_000_000);
}

#[test]
fn threshold_boundary_is_inclusive() {
    // "xyzdefghijklmnopqrst" scores exactly 850000 against the entry.
    let data = data_with(vec![augment_named(7, "abcdefghijklmnopqrst")]);
    let at = find_augment(&data, "xyzdefghijklmnopqrst", Language::KoKr, 850_000).unwrap();
    assert_eq!(at.augment.id, 7);
    assert_eq!(at.similarity, 850_000);
    // One more substitution scores 800000 and is rejected.
    let below = find_augment(&data, "wxyzefghijklmnopqrst", Language::KoKr, 850_000);
    assert!(below.is_none());
}

#[test]
fn fuzzy_ties_go_to_the_first_entry() {
    // Both entries are one substitution from the query with no common
    // prefix, so they score the same; the earlier entry is kept.
    let data = data_with(vec![
        augment_named(10, "ybcdefghijklmnopqrst"),
        augment_named(11, "zbcdefghijklmnopqrst"),
    ]);
    let m = find_augment(&data, "xbcdefghijklmnopqrst", Language::KoKr, 850_000).unwrap();
    assert_eq!(m.augment.id, 10);
    assert_eq!(m.similarity, 950_000);
}

#[test]
fn best_fuzzy_match_wins_when_no_exact_hit() {
    let data = data_with(vec![
        augment_named(20, "abcdefghijklmnopqrst"),
        augment_named(21, "completely different"),
    ]);
    let m = find_augment(&data, "xbcdefghijklmnopqrst", Language::KoKr, 850_000).unwrap();
    assert_eq!(m.augment.id, 20);
    assert_eq!(m.similarity, 950_000);
}

#[test]
fn no_match_on_empty_title_or_empty_dataset() {
    let data = data_with(vec![augment_named(1, "anything")]);
    assert!(find_augment(&data, "", Language::KoKr, 850_000).is_none());
    let empty = data_with(Vec::new());
    assert!(find_augment(&empty, "anything", Language::KoKr, 850_000).is_none());
}

#[test]
fn candidates_empty_list_yields_no_match() {
    let data = data_with(vec![augment_named(1, "abcdefghijklmnopqrst")]);
    let r = find_augment_from_candidates(&data, Vec::new(), Language::KoKr, 850_000);
    assert!(r.is_none());
}

#[test]
fn candidates_highest_scorer_wins() {
    let data = data_with(vec![augment_named(5, "abcdefghijklmnopqrst")]);
    let candidates = vec![
        "wxyzefghijklmnopqrst".to_string(), // 800000: below threshold
        "xyzdefghijklmnopqrst".to_string(), // 850000: above, lower
        "xbcdefghijklmnopqrst".to_string(), // 950000: above, higher
    ];
    let m = find_augment_from_candidates(&data, candidates, Language::KoKr, 850_000).unwrap();
    assert_eq!(m.augment.id, 5);
    assert_eq!(m.similarity, 950_000);
}

#[test]
fn candidates_all_below_threshold_yield_no_match() {
    let data = data_with(vec![augment_named(5, "abcdefghijklmnopqrst")]);
    let candidates = vec![
        "wxyzefghijklmnopqrst".to_string(),
        "zzzzzzzzzzzzzzzzzzzz".to_string(),
    ];
    let r = find_augment_from_candidates(&data, candidates, Language::KoKr, 850_000);
    assert!(r.is_none());
}

#[test]
fn localized_names_select_by_language() {
    let mut a = augment_named(1, "english");
    a.name.ko_kr = "한국어".to_string();
    assert_eq!(a.name.get(Language::KoKr), "한국어");
    assert_eq!(a.name.get(Language::EnGb), "english");
    let data = data_with(vec![a]);
    let m = find_augment(&data, "한국어", Language::KoKr, 850_000).unwrap();
    assert_eq!(m.similarity, 1_000_000);
    assert!(find_augment(&data, "한국어", Language::EnGb, 850_000).is_none());
}
