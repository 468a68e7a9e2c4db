use mayhem_advisor::geometry::{
    calculate_card_positions, calculate_card_positions_fullscreen, card_capture_regions,
    card_crop_regions, text_band_region, GameWindow, ScreenSize,
};

#[test]
fn full_hd_window_regions_exact_values() {
    let win = GameWindow { x: 0, y: 0, width: 1920, height: 1080 };
    let band = text_band_region(&win);
    assert_eq!(band.x, 445);
    assert_eq!(band.y, 378);
    assert_eq!(band.width, 1029);
    assert_eq!(band.height, 108);
    let regions = card_capture_regions(&win);
    assert_eq!(regions[0].x, 467);
    assert_eq!(regions[1].x, 822);
    assert_eq!(regions[2].x, 1177);
    for r in &regions {
        assert_eq!(r.y, 378);
        assert_eq!(r.width, 275);
        assert_eq!(r.height, 108);
    }
}

#[test]
fn full_hd_window_regions_disjoint_ordered_within_bounds() {
    let win = GameWindow { x: 0, y: 0, width: 1920, height: 1080 };
    let regions = card_capture_regions(&win);
    // Equal widths.
    assert_eq!(regions[0].width, regions[1].width);
    assert_eq!(regions[1].width, regions[2].width);
    // Ordered left to right without overlap.
    assert!(regions[0].x + regions[0].width <= regions[1].x);
    assert!(regions[1].x + regions[1].width <= regions[2].x);
    // All inside [0, 1920] x [0, 1080].
    for r in &regions {
        assert!(r.x >= 0 && r.x + r.width <= 1920);
        assert!(r.y >= 0 && r.y + r.height <= 1080);
        assert!(r.width > 0 && r.height > 0);
    }
}

#[test]
fn crop_regions_are_band_relative() {
    let win = GameWindow { x: 0, y: 0, width: 1920, height: 1080 };
    let band = text_band_region(&win);
    let crops = card_crop_regions(&win);
    let regions = card_capture_regions(&win);
    for i in 0..3 {
        assert_eq!(crops[i].y, 0);
        assert_eq!(band.x + crops[i].x, regions[i].x);
        assert_eq!(crops[i].width, regions[i].width);
        assert_eq!(crops[i].height, regions[i].height);
    }
}

#[test]
fn window_offset_shifts_regions() {
    let origin = GameWindow { x: 0, y: 0, width: 1920, height: 1080 };
    let moved = GameWindow { x: 100, y: 50, width: 1920, height: 1080 };
    let a = card_capture_regions(&origin);
    let b = card_capture_regions(&moved);
    for i in 0..3 {
        assert_eq!(b[i].x, a[i].x + 100);
        assert_eq!(b[i].y, a[i].y + 50);
        assert_eq!(b[i].width, a[i].width);
    }
}

#[test]
fn full_hd_anchor_points_exact_values() {
    let win = GameWindow { x: 0, y: 0, width: 1920, height: 1080 };
    let positions = calculate_card_positions(&win);
    assert_eq!(positions[0], (449, 30));
    assert_eq!(positions[1], (804, 30));
    assert_eq!(positions[2], (1159, 30));
}

#[test]
fn fullscreen_positions_match_origin_window() {
    let screen = ScreenSize { width: 1920, height: 1080 };
    let win = GameWindow { x: 0, y: 0, width: 1920, height: 1080 };
    assert_eq!(calculate_card_positions_fullscreen(&screen), calculate_card_positions(&win));
}

#[test]
fn degenerate_window_yields_empty_regions() {
    let win = GameWindow { x: 0, y: 0, width: 0, height: 0 };
    let band = text_band_region(&win);
    assert_eq!(band.width, 0);
    assert_eq!(band.height, 0);
}
