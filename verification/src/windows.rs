//! Window references, window actions and the overlay registry.
//!
//! A command never touches a window directly: it returns a list of
//! [`WindowAction`] values naming the windows by [`WindowRef`], and
//! the host shell carries the list out in order.  Overlays are
//! identified by their index in the registry, which is populated
//! once at startup, with the primary monitor's overlay first.

use vstd::prelude::*;
use crate::poller::OverlayDescriptor;

verus! {

/// A window the coordination core can address.
#[derive(Clone, Copy, Debug, PartialEq, Eq, Structural)]
pub enum WindowRef {
    /// The floating toolbar window.
    Toolbar,
    /// The overlay window at this registry index.
    Overlay(usize),
}

/// One window mutation for the host shell to perform.
#[derive(Clone, Copy, Debug, PartialEq, Eq, Structural)]
pub enum WindowAction {
    /// Make the window click-through (`true`) or clickable (`false`).
    SetIgnoreCursorEvents(WindowRef, bool),
    /// Show (`true`) or hide (`false`) the window.
    SetVisible(WindowRef, bool),
    /// Move the window to this physical position.
    SetPositionPhysical(WindowRef, i32, i32),
    /// Resize the window to this physical size.
    SetSizePhysical(WindowRef, u32, u32),
    /// Resize the window to this logical size.
    SetSizeLogical(WindowRef, u32, u32),
    /// Set or clear the always-on-top flag.
    SetAlwaysOnTop(WindowRef, bool),
}

/// The window an action addresses.
pub open spec fn action_window(a: WindowAction) -> WindowRef {
    match a {
        WindowAction::SetIgnoreCursorEvents(w, _) => w,
        WindowAction::SetVisible(w, _) => w,
        WindowAction::SetPositionPhysical(w, _, _) => w,
        WindowAction::SetSizePhysical(w, _, _) => w,
        WindowAction::SetSizeLogical(w, _, _) => w,
        WindowAction::SetAlwaysOnTop(w, _) => w,
    }
}

/// One overlay reference per registry index, in index order.
pub open spec fn spec_overlay_refs(n: int) -> Seq<WindowRef> {
    Seq::new(n as nat, |i: int| WindowRef::Overlay(i as usize))
}

/// The passthrough fan-out: one ignore-cursor-events action per
/// overlay, in index order.
pub open spec fn spec_passthrough_actions(n: int, pass_through: bool) -> Seq<WindowAction> {
    Seq::new(
        n as nat,
        |i: int| WindowAction::SetIgnoreCursorEvents(WindowRef::Overlay(i as usize), pass_through),
    )
}

/// The visibility fan-out: one show or hide action per overlay.
pub open spec fn spec_visibility_actions(n: int, visible: bool) -> Seq<WindowAction> {
    Seq::new(n as nat, |i: int| WindowAction::SetVisible(WindowRef::Overlay(i as usize), visible))
}

/// The overlay windows tracked by the process: one per monitor,
/// created at startup, the primary monitor's overlay at index zero.
pub struct OverlayRegistry {
    pub overlays: Vec<OverlayDescriptor>,
}

impl OverlayRegistry {
    /// Every tracked descriptor is well formed.
    pub open spec fn wf(self) -> bool {
        forall|i: int| 0 <= i < self.overlays@.len() ==> (#[trigger] self.overlays@[i]).wf()
    }

    /// Track the given overlays, in creation order.
    pub fn new(overlays: Vec<OverlayDescriptor>) -> (r: OverlayRegistry)
        requires
            forall|i: int| 0 <= i < overlays@.len() ==> (#[trigger] overlays@[i]).wf(),
        ensures
            r.wf(),
            r.overlays@ == overlays@,
    {
        OverlayRegistry { overlays }
    }

    /// The number of tracked overlays.
    pub fn count(&self) -> (n: usize)
        ensures
            n == self.overlays@.len(),
    {
        self.overlays.len()
    }

    /// The actions that apply a passthrough change to every tracked
    /// overlay and to nothing else.
    pub fn passthrough_actions(&self, pass_through: bool) -> (r: Vec<WindowAction>)
        ensures
            r@ == spec_passthrough_actions(self.overlays@.len() as int, pass_through),
    {
        let n = self.overlays.len();
        let mut r: Vec<WindowAction> = Vec::new();
        let mut i: usize = 0;
        while i < n
            invariant
                i <= n,
                r@ =~= spec_passthrough_actions(n as int, pass_through).subrange(0, i as int),
            decreases n - i,
        {
            r.push(WindowAction::SetIgnoreCursorEvents(WindowRef::Overlay(i), pass_through));
            i = i + 1;
        }
        assert(r@ =~= spec_passthrough_actions(n as int, pass_through));
        r
    }

    /// The actions that show or hide every tracked overlay and
    /// nothing else.
    pub fn visibility_actions(&self, visible: bool) -> (r: Vec<WindowAction>)
        ensures
            r@ == spec_visibility_actions(self.overlays@.len() as int, visible),
    {
        let n = self.overlays.len();
        let mut r: Vec<WindowAction> = Vec::new();
        let mut i: usize = 0;
        while i < n
            invariant
                i <= n,
                r@ =~= spec_visibility_actions(n as int, visible).subrange(0, i as int),
            decreases n - i,
        {
            r.push(WindowAction::SetVisible(WindowRef::Overlay(i), visible));
            i = i + 1;
        }
        assert(r@ =~= spec_visibility_actions(n as int, visible));
        r
    }

    /// The relay targets for a front-end event: every tracked
    /// overlay, in index order.
    pub fn emit_targets(&self) -> (r: Vec<WindowRef>)
        ensures
            r@ == spec_overlay_refs(self.overlays@.len() as int),
    {
        let n = self.overlays.len();
        let mut r: Vec<WindowRef> = Vec::new();
        let mut i: usize = 0;
        while i < n
            invariant
                i <= n,
                r@ =~= spec_overlay_refs(n as int).subrange(0, i as int),
            decreases n - i,
        {
            r.push(WindowRef::Overlay(i));
            i = i + 1;
        }
        assert(r@ =~= spec_overlay_refs(n as int));
        r
    }
}

/// Fan-out law: a passthrough change reaches every tracked overlay
/// exactly once, in index order, and never addresses the toolbar.
pub proof fn lemma_passthrough_fanout(n: int, pass_through: bool)
    requires
        n >= 0,
    ensures
        spec_passthrough_actions(n, pass_through).len() == n,
        forall|i: int|
            0 <= i < n ==> spec_passthrough_actions(n, pass_through)[i]
                == WindowAction::SetIgnoreCursorEvents(WindowRef::Overlay(i as usize), pass_through),
        forall|i: int|
            0 <= i < n ==> action_window(#[trigger] spec_passthrough_actions(n, pass_through)[i])
                != WindowRef::Toolbar,
{
}

/// Fan-out law for visibility: every tracked overlay is shown or
/// hidden exactly once and the toolbar is never addressed.
pub proof fn lemma_visibility_fanout(n: int, visible: bool)
    requires
        n >= 0,
    ensures
        spec_visibility_actions(n, visible).len() == n,
        forall|i: int|
            0 <= i < n ==> spec_visibility_actions(n, visible)[i] == WindowAction::SetVisible(
                WindowRef::Overlay(i as usize),
                visible,
            ),
        forall|i: int|
            0 <= i < n ==> action_window(#[trigger] spec_visibility_actions(n, visible)[i])
                != WindowRef::Toolbar,
{
}

} // verus!
