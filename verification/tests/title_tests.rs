use mayhem_advisor::title::extract_title_from_ocr;

#[test]
fn title_keeps_band_and_orders_by_left() {
    let items = [("A", 0, 10), ("B", 0, 0), ("C", 100, 5)];
    assert_eq!(extract_title_from_ocr(&items, 10), "BA");
}

#[test]
fn empty_fragment_list_yields_empty_title() {
    let items: [(&str, i32, i32); 0] = [];
    assert_eq!(extract_title_from_ocr(&items, 10), "");
}

#[test]
fn title_trims_each_fragment() {
    let items = [("  Cut ", 0, 0), (" Down!  ", 2, 50)];
    assert_eq!(extract_title_from_ocr(&items, 10), "CutDown!");
}

#[test]
fn title_band_is_anchored_at_topmost_fragment() {
    // The topmost fragment is not the first; the band follows it.
    let items = [("low", 40, 0), ("top", 5, 20), ("near", 12, 10)];
    assert_eq!(extract_title_from_ocr(&items, 10), "neartop");
}

#[test]
fn title_orders_stably_on_equal_left() {
    let items = [("first", 0, 7), ("second", 1, 7)];
    assert_eq!(extract_title_from_ocr(&items, 10), "firstsecond");
}

#[test]
fn whitespace_only_fragments_yield_empty_title() {
    let items = [("   ", 0, 0), ("\t", 1, 5)];
    assert_eq!(extract_title_from_ocr(&items, 10), "");
}
