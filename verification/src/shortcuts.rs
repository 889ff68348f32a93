//! The global-shortcut router: a single transition rule mapping a
//! key event in the pressed state to a named event and a window
//! target set.  Released events, and keys outside the binding table,
//! dispatch nothing.

use vstd::prelude::*;
use crate::windows::WindowRef;
use crate::windows::spec_overlay_refs;

verus! {

/// The keys the process registers as global shortcuts, plus a
/// catch-all for anything else the hook may report.
#[derive(Clone, Copy, Debug, PartialEq, Eq, Structural)]
pub enum ShortcutKey {
    KeyX,
    KeyC,
    KeyZ,
    KeyY,
    KeyS,
    KeyD,
    Other,
}

/// The state a shortcut event reports.
#[derive(Clone, Copy, Debug, PartialEq, Eq, Structural)]
pub enum ShortcutState {
    Pressed,
    Released,
}

/// The named events a shortcut can raise.
#[derive(Clone, Copy, Debug, PartialEq, Eq, Structural)]
pub enum ShortcutAction {
    Toggle,
    Clear,
    Undo,
    Redo,
    Spotlight,
    DrawToggle,
}

/// Which windows a shortcut event is delivered to.
#[derive(Clone, Copy, Debug, PartialEq, Eq, Structural)]
pub enum DispatchTarget {
    ToolbarOnly,
    AllOverlays,
    AllOverlaysAndToolbar,
}

/// One registered global shortcut: a key under the meta and shift
/// modifiers.
#[derive(Clone, Copy, Debug, PartialEq, Eq, Structural)]
pub struct ShortcutBinding {
    pub key: ShortcutKey,
    pub meta: bool,
    pub shift: bool,
}

/// The routing table: only pressed events dispatch, and each bound
/// key carries a fixed event and target set.
pub open spec fn spec_route(state: ShortcutState, key: ShortcutKey) -> Option<
    (ShortcutAction, DispatchTarget),
> {
    if state is Released {
        None
    } else {
        match key {
            ShortcutKey::KeyX => Some((ShortcutAction::Toggle, DispatchTarget::ToolbarOnly)),
            ShortcutKey::KeyC => Some(
                (ShortcutAction::Clear, DispatchTarget::AllOverlaysAndToolbar),
            ),
            ShortcutKey::KeyZ => Some((ShortcutAction::Undo, DispatchTarget::AllOverlays)),
            ShortcutKey::KeyY => Some((ShortcutAction::Redo, DispatchTarget::AllOverlays)),
            ShortcutKey::KeyS => Some((ShortcutAction::Spotlight, DispatchTarget::ToolbarOnly)),
            ShortcutKey::KeyD => Some((ShortcutAction::DrawToggle, DispatchTarget::ToolbarOnly)),
            ShortcutKey::Other => None,
        }
    }
}

/// Route one shortcut event.
pub fn route_shortcut(state: ShortcutState, key: ShortcutKey) -> (r: Option<
    (ShortcutAction, DispatchTarget),
>)
    ensures
        r == spec_route(state, key),
{
    match state {
        ShortcutState::Released => None,
        ShortcutState::Pressed => match key {
            ShortcutKey::KeyX => Some((ShortcutAction::Toggle, DispatchTarget::ToolbarOnly)),
            ShortcutKey::KeyC => Some(
                (ShortcutAction::Clear, DispatchTarget::AllOverlaysAndToolbar),
            ),
            ShortcutKey::KeyZ => Some((ShortcutAction::Undo, DispatchTarget::AllOverlays)),
            ShortcutKey::KeyY => Some((ShortcutAction::Redo, DispatchTarget::AllOverlays)),
            ShortcutKey::KeyS => Some((ShortcutAction::Spotlight, DispatchTarget::ToolbarOnly)),
            ShortcutKey::KeyD => Some((ShortcutAction::DrawToggle, DispatchTarget::ToolbarOnly)),
            ShortcutKey::Other => None,
        },
    }
}

/// The event name delivered to the front end for each action.
pub open spec fn spec_event_name(a: ShortcutAction) -> Seq<char> {
    match a {
        ShortcutAction::Toggle => "shortcut-toggle"@,
        ShortcutAction::Clear => "shortcut-clear"@,
        ShortcutAction::Undo => "shortcut-undo"@,
        ShortcutAction::Redo => "shortcut-redo"@,
        ShortcutAction::Spotlight => "shortcut-spotlight"@,
        ShortcutAction::DrawToggle => "shortcut-draw-toggle"@,
    }
}

/// The event name for an action.
pub fn event_name(a: ShortcutAction) -> (r: &'static str)
    ensures
        r@ == spec_event_name(a),
{
    match a {
        ShortcutAction::Toggle => "shortcut-toggle",
        ShortcutAction::Clear => "shortcut-clear",
        ShortcutAction::Undo => "shortcut-undo",
        ShortcutAction::Redo => "shortcut-redo",
        ShortcutAction::Spotlight => "shortcut-spotlight",
        ShortcutAction::DrawToggle => "shortcut-draw-toggle",
    }
}

/// The windows a target set names, given the number of tracked
/// overlays: overlays in index order, the toolbar last.
pub open spec fn spec_dispatch_windows(target: DispatchTarget, n: int) -> Seq<WindowRef> {
    match target {
        DispatchTarget::ToolbarOnly => seq![WindowRef::Toolbar],
        DispatchTarget::AllOverlays => spec_overlay_refs(n),
        DispatchTarget::AllOverlaysAndToolbar => spec_overlay_refs(n) + seq![WindowRef::Toolbar],
    }
}

/// Expand a target set into the concrete windows to deliver to.
pub fn dispatch_windows(target: DispatchTarget, n_overlays: usize) -> (r: Vec<WindowRef>)
    ensures
        r@ == spec_dispatch_windows(target, n_overlays as int),
{
    let mut r: Vec<WindowRef> = Vec::new();
    match target {
        DispatchTarget::ToolbarOnly => {
            r.push(WindowRef::Toolbar);
            assert(r@ =~= seq![WindowRef::Toolbar]);
        },
        DispatchTarget::AllOverlays => {
            let mut i: usize = 0;
            while i < n_overlays
                invariant
                    i <= n_overlays,
                    r@ =~= spec_overlay_refs(n_overlays as int).subrange(0, i as int),
                decreases n_overlays - i,
            {
                r.push(WindowRef::Overlay(i));
                i = i + 1;
            }
            assert(r@ =~= spec_overlay_refs(n_overlays as int));
        },
        DispatchTarget::AllOverlaysAndToolbar => {
            let mut i: usize = 0;
            while i < n_overlays
                invariant
                    i <= n_overlays,
                    r@ =~= spec_overlay_refs(n_overlays as int).subrange(0, i as int),
                decreases n_overlays - i,
            {
                r.push(WindowRef::Overlay(i));
                i = i + 1;
            }
            r.push(WindowRef::Toolbar);
            assert(r@ =~= spec_overlay_refs(n_overlays as int) + seq![WindowRef::Toolbar]);
        },
    }
    r
}

/// The six shortcuts registered at startup, each under meta+shift,
/// in registration order.
pub fn shortcut_bindings() -> (r: Vec<ShortcutBinding>)
    ensures
        r@ == seq![
            (ShortcutBinding { key: ShortcutKey::KeyX, meta: true, shift: true }),
            (ShortcutBinding { key: ShortcutKey::KeyC, meta: true, shift: true }),
            (ShortcutBinding { key: ShortcutKey::KeyZ, meta: true, shift: true }),
            (ShortcutBinding { key: ShortcutKey::KeyY, meta: true, shift: true }),
            (ShortcutBinding { key: ShortcutKey::KeyS, meta: true, shift: true }),
            (ShortcutBinding { key: ShortcutKey::KeyD, meta: true, shift: true }),
        ],
{
    let mut r: Vec<ShortcutBinding> = Vec::new();
    r.push(ShortcutBinding { key: ShortcutKey::KeyX, meta: true, shift: true });
    r.push(ShortcutBinding { key: ShortcutKey::KeyC, meta: true, shift: true });
    r.push(ShortcutBinding { key: ShortcutKey::KeyZ, meta: true, shift: true });
    r.push(ShortcutBinding { key: ShortcutKey::KeyY, meta: true, shift: true });
    r.push(ShortcutBinding { key: ShortcutKey::KeyS, meta: true, shift: true });
    r.push(ShortcutBinding { key: ShortcutKey::KeyD, meta: true, shift: true });
    assert(r@ =~= seq![
        (ShortcutBinding { key: ShortcutKey::KeyX, meta: true, shift: true }),
        (ShortcutBinding { key: ShortcutKey::KeyC, meta: true, shift: true }),
        (ShortcutBinding { key: ShortcutKey::KeyZ, meta: true, shift: true }),
        (ShortcutBinding { key: ShortcutKey::KeyY, meta: true, shift: true }),
        (ShortcutBinding { key: ShortcutKey::KeyS, meta: true, shift: true }),
        (ShortcutBinding { key: ShortcutKey::KeyD, meta: true, shift: true }),
    ]);
    r
}

/// A released event never dispatches, whatever the key.
pub proof fn lemma_released_never_dispatches(key: ShortcutKey)
    ensures
        spec_route(ShortcutState::Released, key) is None,
{
}

/// The clear shortcut reaches every tracked overlay exactly once and
/// the toolbar exactly once: pressing the clear key dispatches the
/// clear event to the overlays in index order followed by the
/// toolbar, and releasing it dispatches nothing.
pub proof fn lemma_clear_round_trip(n: int)
    requires
        n >= 0,
    ensures
        spec_route(ShortcutState::Pressed, ShortcutKey::KeyC) == Some(
            (ShortcutAction::Clear, DispatchTarget::AllOverlaysAndToolbar),
        ),
        spec_dispatch_windows(DispatchTarget::AllOverlaysAndToolbar, n).len() == n + 1,
        forall|i: int|
            0 <= i < n ==> spec_dispatch_windows(DispatchTarget::AllOverlaysAndToolbar, n)[i]
                == WindowRef::Overlay(i as usize),
        spec_dispatch_windows(DispatchTarget::AllOverlaysAndToolbar, n)[n] == WindowRef::Toolbar,
        spec_route(ShortcutState::Released, ShortcutKey::KeyC) is None,
{
    assert(forall|i: int|
        0 <= i < n ==> spec_dispatch_windows(DispatchTarget::AllOverlaysAndToolbar, n)[i]
            == spec_overlay_refs(n)[i]);
}

} // verus!
