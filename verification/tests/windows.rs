use mira_core::geometry::Scale;
use mira_core::poller::OverlayDescriptor;
use mira_core::windows::OverlayRegistry;
use mira_core::windows::WindowAction;
use mira_core::windows::WindowRef;

fn registry_of(n: usize) -> OverlayRegistry {
    let mut overlays = Vec::new();
    for i in 0..n {
        overlays.push(OverlayDescriptor {
            monitor_x: 1920 * i as i32,
            monitor_y: 0,
            scale: Scale { hundredths: 100 },
        });
    }
    OverlayRegistry::new(overlays)
}

#[test]
fn passthrough_fans_out_to_all_overlays_and_not_the_toolbar() {
    let reg = registry_of(3);
    let actions = reg.passthrough_actions(true);
    assert_eq!(
        actions,
        vec![
            WindowAction::SetIgnoreCursorEvents(WindowRef::Overlay(0), true),
            WindowAction::SetIgnoreCursorEvents(WindowRef::Overlay(1), true),
            WindowAction::SetIgnoreCursorEvents(WindowRef::Overlay(2), true),
        ]
    );
    for a in &actions {
        assert!(!matches!(a, WindowAction::SetIgnoreCursorEvents(WindowRef::Toolbar, _)));
    }
}

#[test]
fn passthrough_false_enables_drawing_everywhere() {
    let reg = registry_of(2);
    let actions = reg.passthrough_actions(false);
    assert_eq!(
        actions,
        vec![
            WindowAction::SetIgnoreCursorEvents(WindowRef::Overlay(0), false),
            WindowAction::SetIgnoreCursorEvents(WindowRef::Overlay(1), false),
        ]
    );
}

#[test]
fn visibility_fans_out_to_every_overlay() {
    let reg = registry_of(2);
    assert_eq!(
        reg.visibility_actions(false),
        vec![
            WindowAction::SetVisible(WindowRef::Overlay(0), false),
            WindowAction::SetVisible(WindowRef::Overlay(1), false),
        ]
    );
    assert_eq!(
        reg.visibility_actions(true),
        vec![
            WindowAction::SetVisible(WindowRef::Overlay(0), true),
            WindowAction::SetVisible(WindowRef::Overlay(1), true),
        ]
    );
}

#[test]
fn event_relay_targets_every_overlay_in_order() {
    let reg = registry_of(3);
    assert_eq!(reg.count(), 3);
    assert_eq!(
        reg.emit_targets(),
        vec![WindowRef::Overlay(0), WindowRef::Overlay(1), WindowRef::Overlay(2)]
    );
}

#[test]
fn empty_registry_fans_out_to_nothing() {
    let reg = registry_of(0);
    assert!(reg.passthrough_actions(true).is_empty());
    assert!(reg.visibility_actions(true).is_empty());
    assert!(reg.emit_targets().is_empty());
}
