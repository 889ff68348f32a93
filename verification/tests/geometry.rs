use mira_core::geometry::Rect;
use mira_core::geometry::Scale;
use mira_core::geometry::ToolbarPosition;
use mira_core::geometry::clamp_toolbar_position;
use mira_core::geometry::clamp_toolbar_width;
use mira_core::geometry::default_toolbar_position;

fn work_area() -> Rect {
    Rect { x: 0, y: 25, width: 1920, height: 1055 }
}

#[test]
fn clamp_inside_is_identity() {
    let p = ToolbarPosition { x: 100, y: 200 };
    let r = clamp_toolbar_position(p, &work_area(), 572, 60);
    assert_eq!(r, p);
}

#[test]
fn clamp_pulls_back_into_bounds() {
    let wa = work_area();
    // Far right and below: clamped to the far corner minus the footprint.
    let p = ToolbarPosition { x: 5000, y: 5000 };
    let r = clamp_toolbar_position(p, &wa, 572, 60);
    assert_eq!(r.x, 1920 - 572);
    assert_eq!(r.y, 25 + 1055 - 60);
    // Above and left of the work area: clamped to its origin.
    let p2 = ToolbarPosition { x: -50, y: 0 };
    let r2 = clamp_toolbar_position(p2, &wa, 572, 60);
    assert_eq!(r2.x, 0);
    assert_eq!(r2.y, 25);
}

#[test]
fn clamp_is_idempotent_on_samples() {
    let wa = work_area();
    for &(x, y) in &[(-9999, -9999), (0, 0), (100, 200), (1900, 1000), (9999, 9999)] {
        let once = clamp_toolbar_position(ToolbarPosition { x, y }, &wa, 572, 60);
        let twice = clamp_toolbar_position(once, &wa, 572, 60);
        assert_eq!(once, twice);
    }
}

#[test]
fn clamp_oversized_toolbar_collapses_to_origin() {
    // Toolbar wider and taller than the work area: the empty interval
    // collapses to the work-area origin.
    let wa = Rect { x: 10, y: 20, width: 300, height: 40 };
    let r = clamp_toolbar_position(ToolbarPosition { x: 500, y: 500 }, &wa, 600, 80);
    assert_eq!(r, ToolbarPosition { x: 10, y: 20 });
}

#[test]
fn width_clamps_low_to_minimum() {
    assert_eq!(clamp_toolbar_width(50), 360);
}

#[test]
fn width_clamps_high_to_maximum() {
    assert_eq!(clamp_toolbar_width(10000), 900);
}

#[test]
fn width_in_range_is_kept() {
    assert_eq!(clamp_toolbar_width(360), 360);
    assert_eq!(clamp_toolbar_width(572), 572);
    assert_eq!(clamp_toolbar_width(900), 900);
}

#[test]
fn default_position_is_centered_at_scale_one() {
    let wa = work_area();
    let s = Scale { hundredths: 100 };
    let (x, y) = default_toolbar_position(&wa, &s);
    // Physical toolbar width 572: centering in 1920 gives 674, and
    // the midpoints agree exactly.
    assert_eq!(x, (1920 - 572) / 2);
    assert_eq!(x + 572 / 2, 1920 / 2);
    assert_eq!(y, 25 + 24);
}

#[test]
fn default_position_scales_margin_and_width() {
    let wa = Rect { x: 1920, y: 0, width: 2560, height: 1440 };
    let s = Scale { hundredths: 200 };
    let (x, y) = default_toolbar_position(&wa, &s);
    // Width 572 at scale 2.0 is 1144 physical; margin 24 becomes 48.
    assert_eq!(x, 1920 + (2560 - 1144) / 2);
    assert_eq!(y, 48);
}

#[test]
fn default_position_centered_at_fractional_scale() {
    let wa = Rect { x: 0, y: 0, width: 1920, height: 1080 };
    let s = Scale { hundredths: 125 };
    let (x, _) = default_toolbar_position(&wa, &s);
    // 572 * 1.25 = 715 physical; the midpoint is within one pixel.
    let w = 715;
    assert_eq!(x, (1920 - w) / 2);
    let diff = (x + w / 2) - 1920 / 2;
    assert!((-1..=1).contains(&diff));
}
