//! Pure geometry: work-area rectangles, scale factors, toolbar
//! clamping and the default toolbar placement.
//!
//! All lengths are physical pixels unless a name says `logical`.
//! Scale factors are stored in hundredths (a scale of 2.0 is 200),
//! so every computation is exact integer arithmetic; physical
//! lengths derived from logical ones truncate toward zero, as the
//! host's float-to-integer conversion does.

use vstd::prelude::*;

verus! {

/// Default logical width of the toolbar window.
pub const TOOLBAR_LOGICAL_WIDTH_DEFAULT: u32 = 572;

/// Fixed logical height of the toolbar window.
pub const TOOLBAR_LOGICAL_HEIGHT: u32 = 60;

/// Logical gap kept between the work-area top edge and the toolbar.
pub const TOOLBAR_TOP_MARGIN_LOGICAL: u32 = 24;

/// Smallest logical width a caller may resize the toolbar to.
pub const TOOLBAR_MIN_LOGICAL_WIDTH: u32 = 360;

/// Largest logical width a caller may resize the toolbar to.
pub const TOOLBAR_MAX_LOGICAL_WIDTH: u32 = 900;

/// A physical-pixel rectangle: a monitor's bounds or its work area.
#[derive(Clone, Copy, Debug, PartialEq, Eq, Structural)]
pub struct Rect {
    pub x: i32,
    pub y: i32,
    pub width: u32,
    pub height: u32,
}

impl Rect {
    /// A rectangle is well formed when its far edges still lie in the
    /// `i32` coordinate space.
    pub open spec fn wf(self) -> bool {
        &&& self.x + self.width <= i32::MAX
        &&& self.y + self.height <= i32::MAX
    }
}

/// Top-left corner of the toolbar window, in physical screen pixels.
#[derive(Clone, Copy, Debug, PartialEq, Eq, Structural)]
pub struct ToolbarPosition {
    pub x: i32,
    pub y: i32,
}

/// A monitor scale factor in hundredths: 100 is 1.0, 200 is 2.0.
#[derive(Clone, Copy, Debug, PartialEq, Eq, Structural)]
pub struct Scale {
    pub hundredths: u32,
}

impl Scale {
    /// Scale factors are positive and at most 100.0.
    pub open spec fn wf(self) -> bool {
        1 <= self.hundredths <= 10000
    }

    /// The physical length of `logical` units under this scale,
    /// truncated toward zero.
    pub open spec fn spec_to_physical(self, logical: u32) -> int {
        (logical * self.hundredths) / 100
    }

    /// Convert a logical length to physical pixels.
    pub fn to_physical(&self, logical: u32) -> (r: u32)
        requires
            self.wf(),
            logical <= 100000,
        ensures
            r == self.spec_to_physical(logical),
            r <= 100 * logical,
    {
        proof {
            lemma_to_physical_bound(*self, logical);
        }
        ((logical as u64 * self.hundredths as u64) / 100) as u32
    }
}

/// A scaled length never exceeds one hundred times the logical
/// length, because scale factors stop at 100.0.
pub proof fn lemma_to_physical_bound(s: Scale, logical: u32)
    requires
        s.wf(),
    ensures
        0 <= s.spec_to_physical(logical) <= 100 * logical,
{
    assert(logical * s.hundredths <= logical * 10000) by (nonlinear_arith)
        requires s.hundredths <= 10000;
    assert((logical * s.hundredths) / 100 <= (logical * 10000) / 100) by (nonlinear_arith)
        requires logical * s.hundredths <= logical * 10000;
    assert((logical * 10000) / 100 == 100 * logical) by (nonlinear_arith);
    assert(logical * s.hundredths >= 0) by (nonlinear_arith)
        requires s.hundredths >= 1;
}

/// Clamp `v` into `[lo, hi]`.  When the interval is empty (`hi < lo`,
/// a toolbar larger than the work area) the clamp collapses to `lo`,
/// flushing the toolbar to the work-area origin.
pub open spec fn clamp_coord(v: int, lo: int, hi: int) -> int {
    if hi < lo {
        lo
    } else if v < lo {
        lo
    } else if v > hi {
        hi
    } else {
        v
    }
}

/// The clamp of a whole position into a work area, for a toolbar of
/// the given physical footprint.
pub open spec fn spec_clamp_position(pos: ToolbarPosition, wa: Rect, w: u32, h: u32) -> ToolbarPosition {
    ToolbarPosition {
        x: clamp_coord(pos.x as int, wa.x as int, wa.x + wa.width - w) as i32,
        y: clamp_coord(pos.y as int, wa.y as int, wa.y + wa.height - h) as i32,
    }
}

/// Move a position to the nearest point at which a `w` by `h` toolbar
/// lies fully inside the work area `wa`.
pub fn clamp_toolbar_position(pos: ToolbarPosition, wa: &Rect, toolbar_w: u32, toolbar_h: u32) -> (r: ToolbarPosition)
    ensures
        r == spec_clamp_position(pos, *wa, toolbar_w, toolbar_h),
{
    let min_x: i64 = wa.x as i64;
    let max_x: i64 = wa.x as i64 + wa.width as i64 - toolbar_w as i64;
    let min_y: i64 = wa.y as i64;
    let max_y: i64 = wa.y as i64 + wa.height as i64 - toolbar_h as i64;
    let x: i64 = clamp_i64(pos.x as i64, min_x, max_x);
    let y: i64 = clamp_i64(pos.y as i64, min_y, max_y);
    ToolbarPosition { x: x as i32, y: y as i32 }
}

/// Clamp one coordinate, collapsing an empty interval to `lo`.
fn clamp_i64(v: i64, lo: i64, hi: i64) -> (r: i64)
    ensures
        r == clamp_coord(v as int, lo as int, hi as int),
{
    if hi < lo {
        lo
    } else if v < lo {
        lo
    } else if v > hi {
        hi
    } else {
        v
    }
}

/// Clamping is idempotent: clamping an already clamped position
/// changes nothing.
pub proof fn lemma_clamp_idempotent(pos: ToolbarPosition, wa: Rect, w: u32, h: u32)
    ensures
        spec_clamp_position(spec_clamp_position(pos, wa, w, h), wa, w, h)
            == spec_clamp_position(pos, wa, w, h),
{
}

/// Containment: when the toolbar fits in the work area, the clamped
/// position keeps the whole toolbar inside it.
pub proof fn lemma_clamp_contained(pos: ToolbarPosition, wa: Rect, w: u32, h: u32)
    requires
        w <= wa.width,
        h <= wa.height,
    ensures
        wa.x <= spec_clamp_position(pos, wa, w, h).x,
        spec_clamp_position(pos, wa, w, h).x + w <= wa.x + wa.width,
        wa.y <= spec_clamp_position(pos, wa, w, h).y,
        spec_clamp_position(pos, wa, w, h).y + h <= wa.y + wa.height,
{
}

/// A position already fully inside the work area is left unchanged.
pub proof fn lemma_clamp_inside_unchanged(pos: ToolbarPosition, wa: Rect, w: u32, h: u32)
    requires
        wa.x <= pos.x,
        pos.x + w <= wa.x + wa.width,
        wa.y <= pos.y,
        pos.y + h <= wa.y + wa.height,
    ensures
        spec_clamp_position(pos, wa, w, h) == pos,
{
}

/// The requested toolbar width clamped into the allowed range.
pub open spec fn spec_clamp_width(w: u32) -> u32 {
    if w < TOOLBAR_MIN_LOGICAL_WIDTH {
        TOOLBAR_MIN_LOGICAL_WIDTH
    } else if w > TOOLBAR_MAX_LOGICAL_WIDTH {
        TOOLBAR_MAX_LOGICAL_WIDTH
    } else {
        w
    }
}

/// Clamp a requested logical toolbar width into the allowed range.
pub fn clamp_toolbar_width(w: u32) -> (r: u32)
    ensures
        r == spec_clamp_width(w),
        TOOLBAR_MIN_LOGICAL_WIDTH <= r <= TOOLBAR_MAX_LOGICAL_WIDTH,
{
    if w < TOOLBAR_MIN_LOGICAL_WIDTH {
        TOOLBAR_MIN_LOGICAL_WIDTH
    } else if w > TOOLBAR_MAX_LOGICAL_WIDTH {
        TOOLBAR_MAX_LOGICAL_WIDTH
    } else {
        w
    }
}

/// Truncating halving: the division toward zero that physical
/// centering uses on a possibly negative difference.
pub open spec fn div2_trunc(d: int) -> int {
    if d >= 0 {
        d / 2
    } else {
        -((-d) / 2)
    }
}

/// Horizontal coordinate of the default toolbar placement:
/// horizontally centered in the work area.
pub open spec fn spec_default_x(wa: Rect, s: Scale) -> int {
    wa.x + div2_trunc(wa.width - s.spec_to_physical(TOOLBAR_LOGICAL_WIDTH_DEFAULT))
}

/// Vertical coordinate of the default toolbar placement: a fixed
/// logical margin below the work-area top edge.
pub open spec fn spec_default_y(wa: Rect, s: Scale) -> int {
    wa.y + s.spec_to_physical(TOOLBAR_TOP_MARGIN_LOGICAL)
}

/// Whether the default placement fits the `i32` coordinate space.
pub open spec fn default_position_fits(wa: Rect, s: Scale) -> bool {
    &&& i32::MIN <= spec_default_x(wa, s)
    &&& spec_default_y(wa, s) <= i32::MAX
}

/// Compute the default toolbar position for a work area and scale:
/// horizontally centered, a fixed scaled margin from the top.
pub fn default_toolbar_position(wa: &Rect, s: &Scale) -> (r: (i32, i32))
    requires
        wa.wf(),
        s.wf(),
        default_position_fits(*wa, *s),
    ensures
        r.0 == spec_default_x(*wa, *s),
        r.1 == spec_default_y(*wa, *s),
{
    let w: u32 = s.to_physical(TOOLBAR_LOGICAL_WIDTH_DEFAULT);
    let margin: u32 = s.to_physical(TOOLBAR_TOP_MARGIN_LOGICAL);
    let diff: i64 = wa.width as i64 - w as i64;
    let half: i64 = if diff >= 0 {
        diff / 2
    } else {
        -((-diff) / 2)
    };
    let x: i64 = wa.x as i64 + half;
    let y: i64 = wa.y as i64 + margin as i64;
    (x as i32, y as i32)
}

/// Centering: the default placement puts the toolbar's horizontal
/// midpoint within one pixel of the work area's midpoint, for every
/// scale factor.
pub proof fn lemma_default_position_centered(wa: Rect, s: Scale)
    requires
        wa.wf(),
        s.wf(),
    ensures
        spec_default_x(wa, s) + s.spec_to_physical(TOOLBAR_LOGICAL_WIDTH_DEFAULT) / 2
            <= wa.x + wa.width / 2 + 1,
        spec_default_x(wa, s) + s.spec_to_physical(TOOLBAR_LOGICAL_WIDTH_DEFAULT) / 2
            >= wa.x + wa.width / 2 - 1,
{
    let w = s.spec_to_physical(TOOLBAR_LOGICAL_WIDTH_DEFAULT);
    let a = wa.width as int;
    lemma_to_physical_bound(s, TOOLBAR_LOGICAL_WIDTH_DEFAULT);
    assert(div2_trunc(a - w) + w / 2 - a / 2 <= 1 && div2_trunc(a - w) + w / 2 - a / 2 >= -1)
        by (nonlinear_arith)
        requires a >= 0, w >= 0;
}

} // verus!
