//! Startup planning and the toolbar commands that need monitor
//! geometry: which monitors get an overlay, how each overlay is
//! configured, where the toolbar starts, and how a width change or a
//! reset repositions and persists it.

use vstd::prelude::*;
use crate::codec::encode_toolbar_position;
use crate::codec::spec_encode_position;
use crate::codec::spec_parse_position;
use crate::geometry::Rect;
use crate::geometry::Scale;
use crate::geometry::ToolbarPosition;
use crate::geometry::TOOLBAR_LOGICAL_HEIGHT;
use crate::geometry::TOOLBAR_LOGICAL_WIDTH_DEFAULT;
use crate::geometry::TOOLBAR_MAX_LOGICAL_WIDTH;
use crate::geometry::TOOLBAR_TOP_MARGIN_LOGICAL;
use crate::geometry::clamp_toolbar_position;
use crate::geometry::default_position_fits;
use crate::geometry::default_toolbar_position;
use crate::geometry::lemma_clamp_inside_unchanged;
use crate::geometry::spec_clamp_position;
use crate::geometry::spec_default_x;
use crate::geometry::spec_default_y;
use crate::codec::lemma_encode_parse_round_trip;
use crate::poller::OverlayDescriptor;
use crate::windows::WindowAction;
use crate::windows::WindowRef;

verus! {

/// What the process knows of one monitor: its full physical bounds,
/// its work area, and its scale factor.
#[derive(Clone, Copy, Debug, PartialEq, Eq, Structural)]
pub struct MonitorInfo {
    pub bounds: Rect,
    pub work_area: Rect,
    pub scale: Scale,
}

impl MonitorInfo {
    /// Both rectangles and the scale factor are well formed.
    pub open spec fn wf(self) -> bool {
        &&& self.bounds.wf()
        &&& self.work_area.wf()
        &&& self.scale.wf()
    }
}

/// The key under which monitors are deduplicated: position and size
/// of their full bounds.
pub open spec fn spec_monitor_key(m: MonitorInfo) -> (i32, i32, u32, u32) {
    (m.bounds.x, m.bounds.y, m.bounds.width, m.bounds.height)
}

/// The deduplication key of a monitor.
pub fn monitor_key(m: &MonitorInfo) -> (r: (i32, i32, u32, u32))
    ensures
        r == spec_monitor_key(*m),
{
    (m.bounds.x, m.bounds.y, m.bounds.width, m.bounds.height)
}

/// The monitors among the first `n` of `available` whose key differs
/// from `pk`, in enumeration order.
pub open spec fn spec_secondaries_upto(
    pk: (i32, i32, u32, u32),
    available: Seq<MonitorInfo>,
    n: int,
) -> Seq<MonitorInfo>
    decreases n,
{
    if n <= 0 {
        Seq::empty()
    } else {
        let prefix = spec_secondaries_upto(pk, available, n - 1);
        if spec_monitor_key(available[n - 1]) != pk {
            prefix + seq![available[n - 1]]
        } else {
            prefix
        }
    }
}

/// The monitors owed an overlay: the primary first, then every
/// enumerated monitor whose key differs from the primary's, in
/// order.  Repetitions of the primary in the enumeration are
/// dropped.
pub open spec fn spec_overlay_monitors(
    primary: MonitorInfo,
    available: Seq<MonitorInfo>,
) -> Seq<MonitorInfo> {
    seq![primary] + spec_secondaries_upto(
        spec_monitor_key(primary),
        available,
        available.len() as int,
    )
}

/// The transform descriptor of the overlay covering a monitor.
pub open spec fn spec_overlay_descriptor(m: MonitorInfo) -> OverlayDescriptor {
    OverlayDescriptor { monitor_x: m.bounds.x, monitor_y: m.bounds.y, scale: m.scale }
}

/// The transform descriptor of the overlay covering this monitor.
pub fn overlay_descriptor(m: &MonitorInfo) -> (r: OverlayDescriptor)
    ensures
        r == spec_overlay_descriptor(*m),
        m.wf() ==> r.wf(),
{
    OverlayDescriptor { monitor_x: m.bounds.x, monitor_y: m.bounds.y, scale: m.scale }
}

/// How an overlay window is configured for its monitor: sized and
/// positioned to the monitor's exact physical bounds, click-through
/// from the start, and shown.
pub open spec fn spec_configure_overlay_actions(m: MonitorInfo, w: WindowRef) -> Seq<WindowAction> {
    seq![
        WindowAction::SetSizePhysical(w, m.bounds.width, m.bounds.height),
        WindowAction::SetPositionPhysical(w, m.bounds.x, m.bounds.y),
        WindowAction::SetIgnoreCursorEvents(w, true),
        WindowAction::SetVisible(w, true),
    ]
}

/// The actions that configure the overlay window `w` to cover
/// monitor `m`.
pub fn configure_overlay_actions(m: &MonitorInfo, w: WindowRef) -> (r: Vec<WindowAction>)
    ensures
        r@ == spec_configure_overlay_actions(*m, w),
{
    let mut r: Vec<WindowAction> = Vec::new();
    r.push(WindowAction::SetSizePhysical(w, m.bounds.width, m.bounds.height));
    r.push(WindowAction::SetPositionPhysical(w, m.bounds.x, m.bounds.y));
    r.push(WindowAction::SetIgnoreCursorEvents(w, true));
    r.push(WindowAction::SetVisible(w, true));
    assert(r@ =~= spec_configure_overlay_actions(*m, w));
    r
}

/// Where the toolbar starts: a persisted position is clamped into
/// the primary work area for the toolbar's default footprint, and
/// without one the default placement is used.
pub open spec fn spec_startup_toolbar_position(
    primary: MonitorInfo,
    saved: Option<ToolbarPosition>,
) -> ToolbarPosition {
    match saved {
        Some(p) => spec_clamp_position(
            p,
            primary.work_area,
            primary.scale.spec_to_physical(TOOLBAR_LOGICAL_WIDTH_DEFAULT) as u32,
            primary.scale.spec_to_physical(TOOLBAR_LOGICAL_HEIGHT) as u32,
        ),
        None => ToolbarPosition {
            x: spec_default_x(primary.work_area, primary.scale) as i32,
            y: spec_default_y(primary.work_area, primary.scale) as i32,
        },
    }
}

/// Everything the host shell must do at startup: the monitors owed
/// an overlay (primary first), and where to put the toolbar.
pub struct SetupPlan {
    /// One entry per overlay window to exist, index order matching
    /// the overlay registry; the entry at index zero is the primary
    /// monitor, whose overlay already exists.
    pub monitors: Vec<MonitorInfo>,
    /// The toolbar's initial position, already clamped.
    pub toolbar_position: ToolbarPosition,
}

/// Plan the startup: deduplicate the monitor list against the
/// primary and settle the toolbar's initial position from the
/// persisted record, if any.  Yields nothing exactly when the
/// primary monitor's geometry places the default toolbar position
/// outside the `i32` coordinate space, in which case no usable setup
/// exists.
pub fn plan_setup(
    primary: &MonitorInfo,
    available: &Vec<MonitorInfo>,
    saved: Option<ToolbarPosition>,
) -> (r: Option<SetupPlan>)
    requires
        primary.wf(),
    ensures
        r is Some <==> default_position_fits(primary.work_area, primary.scale),
        r matches Some(plan) ==> {
            &&& plan.monitors@ == spec_overlay_monitors(*primary, available@)
            &&& plan.toolbar_position == spec_startup_toolbar_position(*primary, saved)
        },
{
    let w: u32 = primary.scale.to_physical(TOOLBAR_LOGICAL_WIDTH_DEFAULT);
    let h: u32 = primary.scale.to_physical(TOOLBAR_LOGICAL_HEIGHT);
    let margin: u32 = primary.scale.to_physical(TOOLBAR_TOP_MARGIN_LOGICAL);
    let diff: i64 = primary.work_area.width as i64 - w as i64;
    let half: i64 = if diff >= 0 {
        diff / 2
    } else {
        -((-diff) / 2)
    };
    let dx: i64 = primary.work_area.x as i64 + half;
    let dy: i64 = primary.work_area.y as i64 + margin as i64;
    assert(dx == spec_default_x(primary.work_area, primary.scale));
    assert(dy == spec_default_y(primary.work_area, primary.scale));
    if dx < -2147483648i64 || dy > 2147483647i64 {
        return None;
    }
    let toolbar_position = match saved {
        Some(p) => clamp_toolbar_position(p, &primary.work_area, w, h),
        None => ToolbarPosition { x: dx as i32, y: dy as i32 },
    };

    let ghost pk = spec_monitor_key(*primary);
    let key = monitor_key(primary);
    let mut monitors: Vec<MonitorInfo> = Vec::new();
    monitors.push(*primary);
    let n = available.len();
    let mut i: usize = 0;
    assert(monitors@ =~= seq![*primary] + spec_secondaries_upto(pk, available@, 0));
    while i < n
        invariant
            i <= n,
            n == available@.len(),
            key == pk,
            monitors@ == seq![*primary] + spec_secondaries_upto(pk, available@, i as int),
        decreases n - i,
    {
        let m = available[i];
        let k = monitor_key(&m);
        if !(k.0 == key.0 && k.1 == key.1 && k.2 == key.2 && k.3 == key.3) {
            monitors.push(m);
            assert(monitors@ =~= seq![*primary] + spec_secondaries_upto(
                pk,
                available@,
                i + 1,
            ));
        } else {
            assert(monitors@ =~= seq![*primary] + spec_secondaries_upto(
                pk,
                available@,
                i + 1,
            ));
        }
        i = i + 1;
    }
    Some(SetupPlan { monitors, toolbar_position })
}

/// The toolbar actions performed at the end of startup: the
/// always-on-top flag is toggled off and on to raise the toolbar
/// above the overlays, then the toolbar is moved to its initial
/// position.
pub open spec fn spec_toolbar_startup_actions(pos: ToolbarPosition) -> Seq<WindowAction> {
    seq![
        WindowAction::SetAlwaysOnTop(WindowRef::Toolbar, false),
        WindowAction::SetAlwaysOnTop(WindowRef::Toolbar, true),
        WindowAction::SetPositionPhysical(WindowRef::Toolbar, pos.x, pos.y),
    ]
}

/// The startup actions for the toolbar window.
pub fn toolbar_startup_actions(pos: ToolbarPosition) -> (r: Vec<WindowAction>)
    ensures
        r@ == spec_toolbar_startup_actions(pos),
{
    let mut r: Vec<WindowAction> = Vec::new();
    r.push(WindowAction::SetAlwaysOnTop(WindowRef::Toolbar, false));
    r.push(WindowAction::SetAlwaysOnTop(WindowRef::Toolbar, true));
    r.push(WindowAction::SetPositionPhysical(WindowRef::Toolbar, pos.x, pos.y));
    assert(r@ =~= spec_toolbar_startup_actions(pos));
    r
}

/// The toolbar position after a width change: the window's current
/// outer position re-clamped for the new physical footprint.
pub open spec fn spec_width_change_position(
    m: MonitorInfo,
    width_logical: u32,
    outer: ToolbarPosition,
) -> ToolbarPosition {
    spec_clamp_position(
        outer,
        m.work_area,
        m.scale.spec_to_physical(width_logical) as u32,
        m.scale.spec_to_physical(TOOLBAR_LOGICAL_HEIGHT) as u32,
    )
}

/// Plan the tail of a width change.  The host has already resized
/// the toolbar to `width_logical` (the clamped width) and re-read
/// its outer position; this re-clamps that position against the new
/// physical footprint and yields the move action together with the
/// bytes to persist.  Re-clamping is required because widening can
/// push the right edge outside the work area even when the left edge
/// was valid.
pub fn plan_toolbar_reposition(
    m: &MonitorInfo,
    width_logical: u32,
    outer: ToolbarPosition,
) -> (r: (Vec<WindowAction>, Vec<u8>))
    requires
        m.wf(),
        width_logical <= TOOLBAR_MAX_LOGICAL_WIDTH,
    ensures
        r.0@ == seq![
            WindowAction::SetPositionPhysical(
                WindowRef::Toolbar,
                spec_width_change_position(*m, width_logical, outer).x,
                spec_width_change_position(*m, width_logical, outer).y,
            ),
        ],
        r.1@ == spec_encode_position(spec_width_change_position(*m, width_logical, outer)),
{
    let w: u32 = m.scale.to_physical(width_logical);
    let h: u32 = m.scale.to_physical(TOOLBAR_LOGICAL_HEIGHT);
    let clamped = clamp_toolbar_position(outer, &m.work_area, w, h);
    let bytes = encode_toolbar_position(&clamped);
    let mut actions: Vec<WindowAction> = Vec::new();
    actions.push(WindowAction::SetPositionPhysical(WindowRef::Toolbar, clamped.x, clamped.y));
    assert(actions@ =~= seq![
        WindowAction::SetPositionPhysical(
            WindowRef::Toolbar,
            spec_width_change_position(*m, width_logical, outer).x,
            spec_width_change_position(*m, width_logical, outer).y,
        ),
    ]);
    (actions, bytes)
}

/// Plan a toolbar reset: recompute the default placement for the
/// current monitor and move the toolbar there.  The host deletes the
/// persisted record afterwards.  Yields nothing exactly when the
/// default placement does not fit the `i32` coordinate space.
pub fn plan_toolbar_reset(m: &MonitorInfo) -> (r: Option<Vec<WindowAction>>)
    requires
        m.wf(),
    ensures
        r is Some <==> default_position_fits(m.work_area, m.scale),
        r matches Some(actions) ==> actions@ == seq![
            WindowAction::SetPositionPhysical(
                WindowRef::Toolbar,
                spec_default_x(m.work_area, m.scale) as i32,
                spec_default_y(m.work_area, m.scale) as i32,
            ),
        ],
{
    let w: u32 = m.scale.to_physical(TOOLBAR_LOGICAL_WIDTH_DEFAULT);
    let margin: u32 = m.scale.to_physical(TOOLBAR_TOP_MARGIN_LOGICAL);
    let diff: i64 = m.work_area.width as i64 - w as i64;
    let half: i64 = if diff >= 0 {
        diff / 2
    } else {
        -((-diff) / 2)
    };
    let dx: i64 = m.work_area.x as i64 + half;
    let dy: i64 = m.work_area.y as i64 + margin as i64;
    assert(dx == spec_default_x(m.work_area, m.scale));
    assert(dy == spec_default_y(m.work_area, m.scale));
    if dx < -2147483648i64 || dy > 2147483647i64 {
        return None;
    }
    let (x, y) = default_toolbar_position(&m.work_area, &m.scale);
    let mut actions: Vec<WindowAction> = Vec::new();
    actions.push(WindowAction::SetPositionPhysical(WindowRef::Toolbar, x, y));
    assert(actions@ =~= seq![
        WindowAction::SetPositionPhysical(
            WindowRef::Toolbar,
            spec_default_x(m.work_area, m.scale) as i32,
            spec_default_y(m.work_area, m.scale) as i32,
        ),
    ]);
    Some(actions)
}

/// No secondary entry carries the primary's key.
proof fn lemma_secondaries_exclude_key(
    pk: (i32, i32, u32, u32),
    available: Seq<MonitorInfo>,
    n: int,
)
    requires
        0 <= n <= available.len(),
    ensures
        forall|i: int|
            0 <= i < spec_secondaries_upto(pk, available, n).len() ==> spec_monitor_key(
                #[trigger] spec_secondaries_upto(pk, available, n)[i],
            ) != pk,
    decreases n,
{
    if n > 0 {
        lemma_secondaries_exclude_key(pk, available, n - 1);
        assert forall|i: int|
            0 <= i < spec_secondaries_upto(pk, available, n).len() implies spec_monitor_key(
            #[trigger] spec_secondaries_upto(pk, available, n)[i],
        ) != pk by {
            let prefix = spec_secondaries_upto(pk, available, n - 1);
            if i < prefix.len() {
                assert(spec_secondaries_upto(pk, available, n)[i] == prefix[i]);
            }
        }
    }
}

/// One overlay per monitor: the planned monitor list starts with the
/// primary, and no later entry repeats the primary's deduplication
/// key, so the primary never gets a second overlay.
pub proof fn lemma_overlay_monitors_dedup(primary: MonitorInfo, available: Seq<MonitorInfo>)
    ensures
        spec_overlay_monitors(primary, available).len() >= 1,
        spec_overlay_monitors(primary, available)[0] == primary,
        forall|i: int|
            1 <= i < spec_overlay_monitors(primary, available).len() ==> spec_monitor_key(
                #[trigger] spec_overlay_monitors(primary, available)[i],
            ) != spec_monitor_key(primary),
{
    let pk = spec_monitor_key(primary);
    lemma_secondaries_exclude_key(pk, available, available.len() as int);
    assert forall|i: int|
        1 <= i < spec_overlay_monitors(primary, available).len() implies spec_monitor_key(
        #[trigger] spec_overlay_monitors(primary, available)[i],
    ) != pk by {
        assert(spec_overlay_monitors(primary, available)[i] == spec_secondaries_upto(
            pk,
            available,
            available.len() as int,
        )[i - 1]);
    }
}

/// Persistence round trip: a saved position parses back to itself,
/// and when it already lies fully inside the unchanged work area for
/// the toolbar's footprint, the startup clamp returns it verbatim.
pub proof fn lemma_persistence_round_trip(p: ToolbarPosition, wa: Rect, w: u32, h: u32)
    ensures
        spec_parse_position(spec_encode_position(p)) == Some(p),
        (wa.x <= p.x && p.x + w <= wa.x + wa.width && wa.y <= p.y && p.y + h <= wa.y + wa.height)
            ==> spec_clamp_position(p, wa, w, h) == p,
{
    lemma_encode_parse_round_trip(p);
    if wa.x <= p.x && p.x + w <= wa.x + wa.width && wa.y <= p.y && p.y + h <= wa.y + wa.height {
        lemma_clamp_inside_unchanged(p, wa, w, h);
    }
}

} // verus!
