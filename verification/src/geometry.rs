//! Geometry calculator: maps the game window's client rectangle (or the
//! full screen) to the panel that holds the three augment cards, to the
//! text-only capture band inside that panel, and to the anchor points of
//! the three annotation panels.
//!
//! The layout is proportional to the window height.  The proportions are
//! held here as parts per ten thousand of the reference dimension, and
//! every coordinate is derived with truncating integer division, so the
//! whole derivation is exact integer arithmetic.

use vstd::prelude::*;

verus! {

use vstd::arithmetic::div_mod::{
    lemma_div_pos_is_pos, lemma_div_is_ordered, lemma_div_multiples_vanish,
    lemma_fundamental_div_mod, lemma_mod_division_less_than_divisor, lemma_div_nonincreasing,
};
use vstd::arithmetic::mul::{lemma_mul_nonnegative, lemma_mul_inequality, lemma_mul_is_commutative};

/// Denominator of all layout ratios: each ratio constant below is a count
/// of parts per ten thousand.
pub const RATIO_DEN: u64 = 10000;

/// Vertical offset of the panel top, as a ratio of the window height.
pub const PANEL_Y_RATIO: u64 = 1670;

/// Panel height as a ratio of the window height.
pub const PANEL_H_RATIO: u64 = 4870;

/// Panel width as a ratio of the window height.
pub const PANEL_W_RATIO: u64 = 9528;

/// Vertical offset of the text band inside the panel, as a ratio of the
/// panel height.
pub const TEXT_Y_OFFSET_RATIO: u64 = 3775;

/// Height of the text band, as a ratio of the panel height.
pub const TEXT_H_RATIO: u64 = 2066;

/// Gap between two adjacent card slots, as a ratio of the panel width.
pub const CARD_GAP_RATIO: u64 = 350;

/// Bezel inset on each side of a card slot, as a ratio of the full slot
/// width.
pub const CARD_BEZEL_RATIO: u64 = 700;

/// Width of one annotation panel, in pixels.
pub const OVERLAY_WIDTH: u64 = 300;

/// Height of one annotation panel, in pixels.
pub const OVERLAY_HEIGHT: u64 = 300;

/// Largest coordinate magnitude the calculator accepts; keeps every
/// intermediate value comfortably inside `i32`.
pub const COORD_LIMIT: i32 = 0x1000_0000;

/// Size of the virtual screen, in pixels.
pub struct ScreenSize {
    pub width: i32,
    pub height: i32,
}

/// Client rectangle of the game window, in screen pixels, origin top-left.
#[derive(Clone, Copy, Debug)]
pub struct GameWindow {
    pub x: i32,
    pub y: i32,
    pub width: i32,
    pub height: i32,
}

/// A rectangle to capture, in the coordinate space of its source (the
/// screen for absolute regions, a captured band for crop regions).
#[derive(Clone, Copy, Debug)]
pub struct CaptureRegion {
    pub x: i32,
    pub y: i32,
    pub width: i32,
    pub height: i32,
}

impl GameWindow {
    /// A window rectangle the calculator accepts: non-negative dimensions
    /// and coordinates small enough that no derived value leaves `i32`.
    pub open spec fn wf(self) -> bool {
        &&& -COORD_LIMIT <= self.x <= COORD_LIMIT
        &&& -COORD_LIMIT <= self.y <= COORD_LIMIT
        &&& 0 <= self.width <= COORD_LIMIT
        &&& 0 <= self.height <= COORD_LIMIT
    }
}

impl ScreenSize {
    /// A screen size the calculator accepts.
    pub open spec fn wf(self) -> bool {
        &&& 0 <= self.width <= COORD_LIMIT
        &&& 0 <= self.height <= COORD_LIMIT
    }
}

/// Panel width derived from the window height `h`.
pub open spec fn spec_panel_w(h: int) -> int {
    h * (PANEL_W_RATIO as int) / (RATIO_DEN as int)
}

/// Panel height derived from the window height `h`.
pub open spec fn spec_panel_h(h: int) -> int {
    h * (PANEL_H_RATIO as int) / (RATIO_DEN as int)
}

/// Screen y of the panel top for a window at `y` with height `h`.
pub open spec fn spec_panel_y(y: int, h: int) -> int {
    y + h * (PANEL_Y_RATIO as int) / (RATIO_DEN as int)
}

/// Screen x of the panel left edge: the panel is horizontally centered in
/// the window.
pub open spec fn spec_panel_x(x: int, w: int, h: int) -> int {
    x + (w - spec_panel_w(h)) / 2
}

/// Gap between adjacent card slots.
pub open spec fn spec_gap(h: int) -> int {
    spec_panel_w(h) * (CARD_GAP_RATIO as int) / (RATIO_DEN as int)
}

/// Full width of one card slot (before the bezel inset): the panel width
/// minus the two gaps, split in three.
pub open spec fn spec_card_w_full(h: int) -> int {
    (spec_panel_w(h) - 2 * spec_gap(h)) / 3
}

/// Bezel inset on each side of a card slot.
pub open spec fn spec_bezel(h: int) -> int {
    spec_card_w_full(h) * (CARD_BEZEL_RATIO as int) / (RATIO_DEN as int)
}

/// Width of the text actually captured from one card: the full slot width
/// minus a bezel on each side.
pub open spec fn spec_card_w(h: int) -> int {
    spec_card_w_full(h) - 2 * spec_bezel(h)
}

/// Screen y of the text band inside the panel.
pub open spec fn spec_text_y(y: int, h: int) -> int {
    spec_panel_y(y, h) + spec_panel_h(h) * (TEXT_Y_OFFSET_RATIO as int) / (RATIO_DEN as int)
}

/// Height of the text band.
pub open spec fn spec_text_h(h: int) -> int {
    spec_panel_h(h) * (TEXT_H_RATIO as int) / (RATIO_DEN as int)
}

/// Offset, within the captured text band, of the left edge of card `i`'s
/// text (bezel inset applied).
pub open spec fn spec_card_offset_x(h: int, i: int) -> int {
    i * (spec_card_w_full(h) + spec_gap(h)) + spec_bezel(h)
}

/// Screen x of the left edge of card `i`'s text region.
pub open spec fn spec_card_x(x: int, w: int, h: int, i: int) -> int {
    spec_panel_x(x, w, h) + spec_card_offset_x(h, i)
}

/// Screen x of the anchor point of the annotation panel for card `i`:
/// centered over the full card slot, shifted left by half the panel width
/// and a quarter bezel.
pub open spec fn spec_anchor_x(x: int, w: int, h: int, i: int) -> int {
    spec_panel_x(x, w, h) + i * (spec_card_w_full(h) + spec_gap(h)) + spec_card_w_full(h) / 2
        - (OVERLAY_WIDTH as int) / 2 - spec_bezel(h) / 4
}

/// Screen y of the anchor point of every annotation panel: half a panel
/// height above the card panel top.
pub open spec fn spec_anchor_y(y: int, h: int) -> int {
    spec_panel_y(y, h) - (OVERLAY_HEIGHT as int) / 2
}

/// Bounds on the derived quantities, for a well-formed window: everything
/// is non-negative and at most the panel width, which is at most the
/// window height.
/// Scaling a non-negative quantity by a ratio of at most one keeps it in
/// `[0, a]`, and the scaled value times the denominator stays below the
/// exact product.
proof fn lemma_ratio_bound(a: int, num: int, den: int)
    requires
        0 <= a,
        0 <= num <= den,
        0 < den,
    ensures
        0 <= a * num / den <= a,
        den * (a * num / den) <= a * num,
{
    lemma_mul_nonnegative(a, num);
    lemma_div_pos_is_pos(a * num, den);
    lemma_mul_inequality(num, den, a);
    lemma_mul_is_commutative(a, num);
    lemma_mul_is_commutative(a, den);
    lemma_div_is_ordered(a * num, a * den, den);
    lemma_div_multiples_vanish(a, den);
    lemma_fundamental_div_mod(a * num, den);
    lemma_mod_division_less_than_divisor(a * num, den);
}

/// Bounds on the derived quantities, for a well-formed window: everything
/// is non-negative, the slot widths nest inside the panel width, and the
/// panel dimensions are at most the window height.
proof fn lemma_derived_bounds(h: int)
    requires
        0 <= h <= COORD_LIMIT,
    ensures
        0 <= spec_panel_w(h) <= h,
        0 <= spec_panel_h(h) <= h,
        0 <= spec_gap(h),
        2 * spec_gap(h) <= spec_panel_w(h),
        0 <= spec_card_w_full(h) <= spec_panel_w(h),
        3 * spec_card_w_full(h) + 2 * spec_gap(h) <= spec_panel_w(h),
        0 <= spec_bezel(h),
        2 * spec_bezel(h) <= spec_card_w_full(h),
        0 <= spec_card_w(h) <= spec_card_w_full(h),
        0 <= spec_panel_h(h) * (TEXT_Y_OFFSET_RATIO as int) / (RATIO_DEN as int) <= spec_panel_h(h),
        0 <= spec_text_h(h) <= spec_panel_h(h),
{
    lemma_ratio_bound(h, PANEL_W_RATIO as int, RATIO_DEN as int);
    lemma_ratio_bound(h, PANEL_H_RATIO as int, RATIO_DEN as int);
    let pw = spec_panel_w(h);
    let ph = spec_panel_h(h);
    lemma_ratio_bound(pw, CARD_GAP_RATIO as int, RATIO_DEN as int);
    let gap = spec_gap(h);
    lemma_div_pos_is_pos(pw - 2 * gap, 3);
    lemma_div_nonincreasing(pw - 2 * gap, 3);
    lemma_fundamental_div_mod(pw - 2 * gap, 3);
    lemma_mod_division_less_than_divisor(pw - 2 * gap, 3);
    let cwf = spec_card_w_full(h);
    lemma_ratio_bound(cwf, CARD_BEZEL_RATIO as int, RATIO_DEN as int);
    lemma_ratio_bound(ph, TEXT_Y_OFFSET_RATIO as int, RATIO_DEN as int);
    lemma_ratio_bound(ph, TEXT_H_RATIO as int, RATIO_DEN as int);
}

/// Layout law for the three card capture regions: they share one width,
/// are ordered left to right without overlap, and — whenever the panel is
/// no wider than the window — they lie inside the window rectangle, as
/// does the text band they are cut from.  For windows of a reasonable
/// height every region also has positive dimensions.
pub proof fn lemma_card_regions_layout(win: GameWindow)
    requires
        win.wf(),
        spec_panel_w(win.height as int) <= win.width as int,
    ensures
        spec_card_x(win.x as int, win.width as int, win.height as int, 0) + spec_card_w(
            win.height as int) <= spec_card_x(win.x as int, win.width as int, win.height as int, 1),
        spec_card_x(win.x as int, win.width as int, win.height as int, 1) + spec_card_w(
            win.height as int) <= spec_card_x(win.x as int, win.width as int, win.height as int, 2),
        win.x <= spec_card_x(win.x as int, win.width as int, win.height as int, 0),
        spec_card_x(win.x as int, win.width as int, win.height as int, 2) + spec_card_w(
            win.height as int) <= win.x + win.width,
        win.y <= spec_text_y(win.y as int, win.height as int),
        spec_text_y(win.y as int, win.height as int) + spec_text_h(win.height as int) <= win.y
            + win.height,
        64 <= win.height ==> 1 <= spec_card_w(win.height as int),
        64 <= win.height ==> 1 <= spec_text_h(win.height as int),
{
    let x = win.x as int;
    let y = win.y as int;
    let w = win.width as int;
    let h = win.height as int;
    lemma_derived_bounds(h);
    let pw = spec_panel_w(h);
    let ph = spec_panel_h(h);
    let gap = spec_gap(h);
    let cwf = spec_card_w_full(h);
    let bez = spec_bezel(h);
    let den = RATIO_DEN as int;

    // Exact division facts: each scaled quantity is the true product up to
    // a remainder below the denominator.
    lemma_fundamental_div_mod(h * (PANEL_W_RATIO as int), den);
    lemma_mod_division_less_than_divisor(h * (PANEL_W_RATIO as int), den);
    lemma_fundamental_div_mod(h * (PANEL_H_RATIO as int), den);
    lemma_mod_division_less_than_divisor(h * (PANEL_H_RATIO as int), den);
    lemma_fundamental_div_mod(h * (PANEL_Y_RATIO as int), den);
    lemma_mod_division_less_than_divisor(h * (PANEL_Y_RATIO as int), den);
    lemma_div_pos_is_pos(h * (PANEL_Y_RATIO as int), den);
    lemma_mul_nonnegative(h, PANEL_Y_RATIO as int);
    lemma_fundamental_div_mod(pw * (CARD_GAP_RATIO as int), den);
    lemma_mod_division_less_than_divisor(pw * (CARD_GAP_RATIO as int), den);
    lemma_fundamental_div_mod(pw - 2 * gap, 3);
    lemma_mod_division_less_than_divisor(pw - 2 * gap, 3);
    lemma_fundamental_div_mod(cwf * (CARD_BEZEL_RATIO as int), den);
    lemma_mod_division_less_than_divisor(cwf * (CARD_BEZEL_RATIO as int), den);
    lemma_fundamental_div_mod(ph * (TEXT_Y_OFFSET_RATIO as int), den);
    lemma_mod_division_less_than_divisor(ph * (TEXT_Y_OFFSET_RATIO as int), den);
    lemma_div_pos_is_pos(ph * (TEXT_Y_OFFSET_RATIO as int), den);
    lemma_mul_nonnegative(ph, TEXT_Y_OFFSET_RATIO as int);
    lemma_fundamental_div_mod(ph * (TEXT_H_RATIO as int), den);
    lemma_mod_division_less_than_divisor(ph * (TEXT_H_RATIO as int), den);

    // Horizontal centering: the shift is non-negative and at most the
    // leftover width.
    lemma_div_pos_is_pos(w - pw, 2);
    lemma_div_nonincreasing(w - pw, 2);

    // The vertical offsets together stay below the window height:
    // 1670*h + 3775*ph + 2066*ph <= 1670*h + 5841*ph, and
    // 10000*ph <= 4870*h, so the sum is below 10000*h.
    let off_a = h * (PANEL_Y_RATIO as int) / den;
    let off_b = ph * (TEXT_Y_OFFSET_RATIO as int) / den;
    let off_c = ph * (TEXT_H_RATIO as int) / den;
    assert(den * off_a <= h * (PANEL_Y_RATIO as int));
    assert(den * off_b <= ph * (TEXT_Y_OFFSET_RATIO as int));
    assert(den * off_c <= ph * (TEXT_H_RATIO as int));
    assert(den * ph <= h * (PANEL_H_RATIO as int));
    assert(off_a + off_b + off_c <= h);
}

/// Truncating division of `h * num` by `RATIO_DEN`, for ratio scaling.
fn scale(h: u64, num: u64) -> (r: u64)
    requires
        h <= COORD_LIMIT,
        num <= RATIO_DEN,
    ensures
        r == h as int * num as int / (RATIO_DEN as int),
        r <= h,
{
    proof {
        assert(h as int * num as int / (RATIO_DEN as int) <= h as int) by (nonlinear_arith)
            requires h <= COORD_LIMIT, num <= RATIO_DEN;
        assert(h as int * num as int <= COORD_LIMIT as int * (RATIO_DEN as int)) by (nonlinear_arith)
            requires h <= COORD_LIMIT, num <= RATIO_DEN;
    }
    h * num / RATIO_DEN
}

/// Floor of `(w - pw) / 2` where both arguments are non-negative: the
/// horizontal centering shift, which is negative when the panel is wider
/// than the window.
fn centering_shift(w: u64, pw: u64) -> (r: i64)
    requires
        w <= COORD_LIMIT,
        pw <= COORD_LIMIT,
    ensures
        r == (w as int - pw as int) / 2,
{
    if w >= pw {
        let d: u64 = w - pw;
        proof {
            assert((w as int - pw as int) / 2 == d as int / 2);
        }
        (d / 2) as i64
    } else {
        let d: u64 = pw - w;
        let q: u64 = (d + 1) / 2;
        proof {
            assert((w as int - pw as int) / 2 == -((d as int + 1) / 2)) by (nonlinear_arith)
                requires d == pw - w, w < pw;
        }
        -(q as i64)
    }
}

/// The single screen rectangle that is captured per tick: the text band of
/// the card panel, spanning all three cards.
pub fn text_band_region(win: &GameWindow) -> (r: CaptureRegion)
    requires
        win.wf(),
    ensures
        r.x == spec_panel_x(win.x as int, win.width as int, win.height as int),
        r.y == spec_text_y(win.y as int, win.height as int),
        r.width == spec_panel_w(win.height as int),
        r.height == spec_text_h(win.height as int),
        0 <= r.width,
        0 <= r.height,
{
    proof {
        lemma_derived_bounds(win.height as int);
    }
    let h: u64 = win.height as u64;
    let w: u64 = win.width as u64;
    let panel_w: u64 = scale(h, PANEL_W_RATIO);
    let panel_h: u64 = scale(h, PANEL_H_RATIO);
    let panel_y: i64 = win.y as i64 + scale(h, PANEL_Y_RATIO) as i64;
    let panel_x: i64 = win.x as i64 + centering_shift(w, panel_w);
    let text_y: i64 = panel_y + scale(panel_h, TEXT_Y_OFFSET_RATIO) as i64;
    let text_h: u64 = scale(panel_h, TEXT_H_RATIO);
    CaptureRegion {
        x: panel_x as i32,
        y: text_y as i32,
        width: panel_w as i32,
        height: text_h as i32,
    }
}

/// The three rectangles to cut out of the captured text band, one per
/// card, in the band's own coordinates: left to right, each inset by a
/// bezel on both sides.
pub fn card_crop_regions(win: &GameWindow) -> (r: [CaptureRegion; 3])
    requires
        win.wf(),
    ensures
        forall|i: int| 0 <= i < 3 ==> {
            &&& (#[trigger] r@[i]).x == spec_card_offset_x(win.height as int, i)
            &&& r@[i].y == 0
            &&& r@[i].width == spec_card_w(win.height as int)
            &&& r@[i].height == spec_text_h(win.height as int)
        },
{
    proof {
        lemma_derived_bounds(win.height as int);
    }
    let h: u64 = win.height as u64;
    let panel_w: u64 = scale(h, PANEL_W_RATIO);
    let panel_h: u64 = scale(h, PANEL_H_RATIO);
    let gap: u64 = scale(panel_w, CARD_GAP_RATIO);
    let cwf: u64 = (panel_w - 2 * gap) / 3;
    let bezel: u64 = scale(cwf, CARD_BEZEL_RATIO);
    let cw: u64 = cwf - 2 * bezel;
    let text_h: u64 = scale(panel_h, TEXT_H_RATIO);
    let step: u64 = cwf + gap;
    proof {
        let hi = win.height as int;
        assert(cwf == spec_card_w_full(hi));
        assert(bezel == spec_bezel(hi));
        assert(2 * step + bezel <= 3 * COORD_LIMIT);
        assert(spec_card_offset_x(hi, 0) == bezel as int);
        assert(spec_card_offset_x(hi, 1) == step + bezel);
        assert(spec_card_offset_x(hi, 2) == 2 * step + bezel);
    }
    let r0 = CaptureRegion {
        x: bezel as i32,
        y: 0,
        width: cw as i32,
        height: text_h as i32,
    };
    let r1 = CaptureRegion {
        x: (step + bezel) as i32,
        y: 0,
        width: cw as i32,
        height: text_h as i32,
    };
    let r2 = CaptureRegion {
        x: (2 * step + bezel) as i32,
        y: 0,
        width: cw as i32,
        height: text_h as i32,
    };
    let r = [r0, r1, r2];
    proof {
        assert(r@[0] == r0 && r@[1] == r1 && r@[2] == r2);
    }
    r
}

/// The three absolute screen rectangles holding the cards' title text:
/// the text band offset by each card's crop rectangle.
pub fn card_capture_regions(win: &GameWindow) -> (r: [CaptureRegion; 3])
    requires
        win.wf(),
    ensures
        forall|i: int| 0 <= i < 3 ==> {
            &&& (#[trigger] r@[i]).x == spec_card_x(
                win.x as int, win.width as int, win.height as int, i)
            &&& r@[i].y == spec_text_y(win.y as int, win.height as int)
            &&& r@[i].width == spec_card_w(win.height as int)
            &&& r@[i].height == spec_text_h(win.height as int)
        },
{
    let band = text_band_region(win);
    let crops = card_crop_regions(win);
    let r0 = CaptureRegion {
        x: band.x + crops[0].x,
        y: band.y,
        width: crops[0].width,
        height: crops[0].height,
    };
    let r1 = CaptureRegion {
        x: band.x + crops[1].x,
        y: band.y,
        width: crops[1].width,
        height: crops[1].height,
    };
    let r2 = CaptureRegion {
        x: band.x + crops[2].x,
        y: band.y,
        width: crops[2].width,
        height: crops[2].height,
    };
    proof {
        lemma_derived_bounds(win.height as int);
    }
    [r0, r1, r2]
}

/// Anchor points for the three annotation panels, derived from the game
/// window rectangle.
pub fn calculate_card_positions(win: &GameWindow) -> (r: [(i32, i32); 3])
    requires
        win.wf(),
    ensures
        forall|i: int| 0 <= i < 3 ==> {
            &&& (#[trigger] r@[i]).0 == spec_anchor_x(
                win.x as int, win.width as int, win.height as int, i)
            &&& r@[i].1 == spec_anchor_y(win.y as int, win.height as int)
        },
{
    proof {
        lemma_derived_bounds(win.height as int);
    }
    let h: u64 = win.height as u64;
    let w: u64 = win.width as u64;
    let panel_w: u64 = scale(h, PANEL_W_RATIO);
    let panel_y: i64 = win.y as i64 + scale(h, PANEL_Y_RATIO) as i64;
    let panel_x: i64 = win.x as i64 + centering_shift(w, panel_w);
    let gap: u64 = scale(panel_w, CARD_GAP_RATIO);
    let cwf: u64 = (panel_w - 2 * gap) / 3;
    let bezel: u64 = scale(cwf, CARD_BEZEL_RATIO);
    let step: u64 = cwf + gap;
    let half_overlay_w: i64 = (OVERLAY_WIDTH / 2) as i64;
    let base_x: i64 = panel_x + (cwf / 2) as i64 - half_overlay_w - (bezel / 4) as i64;
    let top_y: i64 = panel_y - (OVERLAY_HEIGHT / 2) as i64;
    proof {
        let xi = win.x as int;
        let wi = win.width as int;
        let hi = win.height as int;
        assert(panel_x == spec_panel_x(xi, wi, hi));
        assert(-2 * COORD_LIMIT <= base_x <= 3 * COORD_LIMIT);
        assert(step <= 2 * COORD_LIMIT);
        assert(base_x == spec_anchor_x(xi, wi, hi, 0));
        assert(base_x + step == spec_anchor_x(xi, wi, hi, 1));
        assert(base_x + 2 * step == spec_anchor_x(xi, wi, hi, 2));
        assert(top_y == spec_anchor_y(win.y as int, hi));
    }
    let p0 = (base_x as i32, top_y as i32);
    let p1 = ((base_x + step as i64) as i32, top_y as i32);
    let p2 = ((base_x + 2 * step as i64) as i32, top_y as i32);
    let r = [p0, p1, p2];
    proof {
        assert(r@[0] == p0 && r@[1] == p1 && r@[2] == p2);
    }
    r
}

/// Anchor points for the three annotation panels when the source is the
/// full screen instead of a window rectangle.
pub fn calculate_card_positions_fullscreen(screen: &ScreenSize) -> (r: [(i32, i32); 3])
    requires
        screen.wf(),
    ensures
        forall|i: int| 0 <= i < 3 ==> {
            &&& (#[trigger] r@[i]).0 == spec_anchor_x(
                0, screen.width as int, screen.height as int, i)
            &&& r@[i].1 == spec_anchor_y(0, screen.height as int)
        },
{
    let win = GameWindow { x: 0, y: 0, width: screen.width, height: screen.height };
    calculate_card_positions(&win)
}

} // verus!
