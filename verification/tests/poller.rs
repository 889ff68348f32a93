use mira_core::geometry::Scale;
use mira_core::poller::CursorPoller;
use mira_core::poller::CursorSample;
use mira_core::poller::OverlayDescriptor;
use mira_core::poller::logical_position;

fn overlay(monitor_x: i32, monitor_y: i32, hundredths: u32) -> OverlayDescriptor {
    OverlayDescriptor { monitor_x, monitor_y, scale: Scale { hundredths } }
}

#[test]
fn transform_scales_into_logical_space() {
    // A monitor at physical origin (1920, 0) with scale 2.0 and the
    // global cursor at (2020, 100) sees the cursor at logical (50, 50).
    let ov = overlay(1920, 0, 200);
    let lp = logical_position(&ov, CursorSample { x: 2020, y: 100 });
    assert_eq!(lp.x_centi, 5000);
    assert_eq!(lp.y_centi, 5000);
}

#[test]
fn transform_handles_negative_offsets() {
    let ov = overlay(100, 100, 100);
    let lp = logical_position(&ov, CursorSample { x: 40, y: 250 });
    assert_eq!(lp.x_centi, -6000);
    assert_eq!(lp.y_centi, 15000);
}

#[test]
fn first_sample_always_emits() {
    let mut poller = CursorPoller::new(vec![overlay(0, 0, 100), overlay(1920, 0, 200)]);
    let emits = poller.sample(CursorSample { x: 10, y: 20 });
    assert_eq!(emits.len(), 2);
    assert_eq!(emits[0].overlay, 0);
    assert_eq!(emits[0].at.x_centi, 1000);
    assert_eq!(emits[0].at.y_centi, 2000);
    assert_eq!(emits[1].overlay, 1);
}

#[test]
fn deadband_suppresses_small_movement() {
    let mut poller = CursorPoller::new(vec![overlay(0, 0, 10000)]);
    // At scale 100.0 each physical pixel is 0.01 logical units, so a
    // few pixels of jitter stay far inside the 0.25-unit deadband.
    let first = poller.sample(CursorSample { x: 1000, y: 1000 });
    assert_eq!(first.len(), 1);
    let mut total = 0;
    for &(x, y) in &[(1001, 1000), (999, 999), (1010, 990), (1000, 1024), (976, 1000)] {
        total += poller.sample(CursorSample { x, y }).len();
    }
    assert_eq!(total, 0);
}

#[test]
fn movement_at_exactly_deadband_is_suppressed() {
    let mut poller = CursorPoller::new(vec![overlay(0, 0, 100)]);
    poller.sample(CursorSample { x: 0, y: 0 });
    // 0.25 logical units exactly: the filter requires strictly more.
    // At scale 1.0 no integer pixel step is 0.25 units, so use scale
    // 4.0 where one physical pixel is exactly 0.25 logical units.
    let mut poller4 = CursorPoller::new(vec![overlay(0, 0, 400)]);
    poller4.sample(CursorSample { x: 0, y: 0 });
    let emits = poller4.sample(CursorSample { x: 1, y: 1 });
    assert_eq!(emits.len(), 0);
    let emits = poller4.sample(CursorSample { x: 2, y: 0 });
    assert_eq!(emits.len(), 1);
    assert_eq!(emits[0].at.x_centi, 50);
}

#[test]
fn emission_updates_the_reference_point() {
    let mut poller = CursorPoller::new(vec![overlay(0, 0, 100)]);
    poller.sample(CursorSample { x: 0, y: 0 });
    // Move a full pixel: emitted, and the deadband now centers there.
    assert_eq!(poller.sample(CursorSample { x: 1, y: 0 }).len(), 1);
    // The earlier origin is more than 0.25 away, but the new center
    // is not: no emission.
    assert_eq!(poller.sample(CursorSample { x: 1, y: 0 }).len(), 0);
}

#[test]
fn emissions_come_in_overlay_order() {
    let mut poller = CursorPoller::new(vec![
        overlay(0, 0, 100),
        overlay(1920, 0, 100),
        overlay(-1280, 0, 100),
    ]);
    let emits = poller.sample(CursorSample { x: 5, y: 5 });
    let order: Vec<usize> = emits.iter().map(|e| e.overlay).collect();
    assert_eq!(order, vec![0, 1, 2]);
}

#[test]
fn overlays_filter_independently() {
    // Two overlays with different scales: the same physical step can
    // leave the deadband on one monitor and stay inside it on the
    // other (logical delta 1.0 at scale 1.0, 0.01 at scale 100.0).
    let mut poller = CursorPoller::new(vec![overlay(0, 0, 100), overlay(0, 0, 10000)]);
    poller.sample(CursorSample { x: 0, y: 0 });
    let emits = poller.sample(CursorSample { x: 1, y: 0 });
    assert_eq!(emits.len(), 1);
    assert_eq!(emits[0].overlay, 0);
}
