use mira_core::shortcuts::DispatchTarget;
use mira_core::shortcuts::ShortcutAction;
use mira_core::shortcuts::ShortcutKey;
use mira_core::shortcuts::ShortcutState;
use mira_core::shortcuts::dispatch_windows;
use mira_core::shortcuts::event_name;
use mira_core::shortcuts::route_shortcut;
use mira_core::shortcuts::shortcut_bindings;
use mira_core::windows::WindowRef;

#[test]
fn pressed_clear_reaches_all_overlays_and_toolbar() {
    let routed = route_shortcut(ShortcutState::Pressed, ShortcutKey::KeyC);
    assert_eq!(
        routed,
        Some((ShortcutAction::Clear, DispatchTarget::AllOverlaysAndToolbar))
    );
    let (action, target) = routed.unwrap();
    assert_eq!(event_name(action), "shortcut-clear");
    let windows = dispatch_windows(target, 3);
    assert_eq!(
        windows,
        vec![
            WindowRef::Overlay(0),
            WindowRef::Overlay(1),
            WindowRef::Overlay(2),
            WindowRef::Toolbar,
        ]
    );
}

#[test]
fn released_events_dispatch_nothing() {
    for key in [
        ShortcutKey::KeyX,
        ShortcutKey::KeyC,
        ShortcutKey::KeyZ,
        ShortcutKey::KeyY,
        ShortcutKey::KeyS,
        ShortcutKey::KeyD,
        ShortcutKey::Other,
    ] {
        assert_eq!(route_shortcut(ShortcutState::Released, key), None);
    }
}

#[test]
fn unbound_keys_dispatch_nothing() {
    assert_eq!(route_shortcut(ShortcutState::Pressed, ShortcutKey::Other), None);
}

#[test]
fn routing_table_matches_bindings() {
    let cases = [
        (ShortcutKey::KeyX, ShortcutAction::Toggle, DispatchTarget::ToolbarOnly),
        (ShortcutKey::KeyC, ShortcutAction::Clear, DispatchTarget::AllOverlaysAndToolbar),
        (ShortcutKey::KeyZ, ShortcutAction::Undo, DispatchTarget::AllOverlays),
        (ShortcutKey::KeyY, ShortcutAction::Redo, DispatchTarget::AllOverlays),
        (ShortcutKey::KeyS, ShortcutAction::Spotlight, DispatchTarget::ToolbarOnly),
        (ShortcutKey::KeyD, ShortcutAction::DrawToggle, DispatchTarget::ToolbarOnly),
    ];
    for (key, action, target) in cases {
        assert_eq!(route_shortcut(ShortcutState::Pressed, key), Some((action, target)));
    }
}

#[test]
fn event_names_match_the_frontend_contract() {
    assert_eq!(event_name(ShortcutAction::Toggle), "shortcut-toggle");
    assert_eq!(event_name(ShortcutAction::Clear), "shortcut-clear");
    assert_eq!(event_name(ShortcutAction::Undo), "shortcut-undo");
    assert_eq!(event_name(ShortcutAction::Redo), "shortcut-redo");
    assert_eq!(event_name(ShortcutAction::Spotlight), "shortcut-spotlight");
    assert_eq!(event_name(ShortcutAction::DrawToggle), "shortcut-draw-toggle");
}

#[test]
fn toolbar_only_targets_just_the_toolbar() {
    let windows = dispatch_windows(DispatchTarget::ToolbarOnly, 5);
    assert_eq!(windows, vec![WindowRef::Toolbar]);
}

#[test]
fn all_overlays_excludes_the_toolbar() {
    let windows = dispatch_windows(DispatchTarget::AllOverlays, 2);
    assert_eq!(windows, vec![WindowRef::Overlay(0), WindowRef::Overlay(1)]);
}

#[test]
fn six_bindings_under_meta_shift() {
    let bindings = shortcut_bindings();
    assert_eq!(bindings.len(), 6);
    let keys: Vec<ShortcutKey> = bindings.iter().map(|b| b.key).collect();
    assert_eq!(
        keys,
        vec![
            ShortcutKey::KeyX,
            ShortcutKey::KeyC,
            ShortcutKey::KeyZ,
            ShortcutKey::KeyY,
            ShortcutKey::KeyS,
            ShortcutKey::KeyD,
        ]
    );
    for b in &bindings {
        assert!(b.meta && b.shift);
    }
}
