//! The cursor poller's decision core: the physical-to-logical
//! transform and the per-overlay deadband filter.
//!
//! Logical coordinates are kept in hundredths of a logical unit
//! (centi-units), so the 0.25-unit deadband is the exact integer 25.
//! The host samples the cursor on a fixed period and feeds each
//! sample to [`CursorPoller::sample`]; the returned emissions are the
//! cursor-moved events owed to individual overlays for that tick.

use vstd::prelude::*;
use crate::geometry::Scale;

verus! {

/// Logical delta, in centi-units, a coordinate must move beyond
/// before a new event is emitted.
pub const DEADBAND_CENTI: i64 = 25;

/// The transform parameters of one overlay window: its monitor's
/// physical origin and scale factor.
#[derive(Clone, Copy, Debug, PartialEq, Eq, Structural)]
pub struct OverlayDescriptor {
    pub monitor_x: i32,
    pub monitor_y: i32,
    pub scale: Scale,
}

impl OverlayDescriptor {
    /// A descriptor is well formed when its scale factor is.
    pub open spec fn wf(self) -> bool {
        self.scale.wf()
    }
}

/// A sampled global cursor position, in physical pixels.
#[derive(Clone, Copy, Debug, PartialEq, Eq, Structural)]
pub struct CursorSample {
    pub x: i32,
    pub y: i32,
}

/// A cursor position in one overlay's logical space, in centi-units.
#[derive(Clone, Copy, Debug, PartialEq, Eq, Structural)]
pub struct LogicalPoint {
    pub x_centi: i64,
    pub y_centi: i64,
}

/// One cursor-moved event owed to the overlay at index `overlay`.
#[derive(Clone, Copy, Debug, PartialEq, Eq, Structural)]
pub struct CursorEmission {
    pub overlay: usize,
    pub at: LogicalPoint,
}

/// Division truncating toward zero, the rounding of the host's
/// float-to-integer conversions.
pub open spec fn div_trunc(a: int, b: int) -> int {
    if a >= 0 {
        a / b
    } else {
        -((-a) / b)
    }
}

/// Magnitude of an integer.
pub open spec fn abs_int(a: int) -> int {
    if a >= 0 {
        a
    } else {
        -a
    }
}

/// The horizontal logical coordinate, in centi-units, of a cursor
/// sample relative to an overlay's monitor.
pub open spec fn spec_logical_x(ov: OverlayDescriptor, s: CursorSample) -> int {
    div_trunc((s.x - ov.monitor_x) * 10000, ov.scale.hundredths as int)
}

/// The vertical logical coordinate, in centi-units.
pub open spec fn spec_logical_y(ov: OverlayDescriptor, s: CursorSample) -> int {
    div_trunc((s.y - ov.monitor_y) * 10000, ov.scale.hundredths as int)
}

/// Whether a new logical position must be emitted, given the last
/// emitted one: always on the first sample, afterwards only when
/// either axis moved by more than the deadband.
pub open spec fn spec_should_emit(last: Option<LogicalPoint>, lx: int, ly: int) -> bool {
    match last {
        None => true,
        Some(prev) => abs_int(lx - prev.x_centi) > DEADBAND_CENTI || abs_int(ly - prev.y_centi)
            > DEADBAND_CENTI,
    }
}

/// The last-emitted entry of overlay `i` after one sample.
pub open spec fn spec_updated_last(
    ov: Seq<OverlayDescriptor>,
    last: Seq<Option<LogicalPoint>>,
    s: CursorSample,
    i: int,
) -> Option<LogicalPoint> {
    if spec_should_emit(last[i], spec_logical_x(ov[i], s), spec_logical_y(ov[i], s)) {
        Some(
            LogicalPoint {
                x_centi: spec_logical_x(ov[i], s) as i64,
                y_centi: spec_logical_y(ov[i], s) as i64,
            },
        )
    } else {
        last[i]
    }
}

/// The emissions owed for one sample among the first `n` overlays,
/// in overlay order.
pub open spec fn spec_emissions_upto(
    ov: Seq<OverlayDescriptor>,
    last: Seq<Option<LogicalPoint>>,
    s: CursorSample,
    n: int,
) -> Seq<CursorEmission>
    decreases n,
{
    if n <= 0 {
        Seq::empty()
    } else {
        let prefix = spec_emissions_upto(ov, last, s, n - 1);
        if spec_should_emit(last[n - 1], spec_logical_x(ov[n - 1], s), spec_logical_y(ov[n - 1], s)) {
            prefix + seq![
                (CursorEmission {
                    overlay: (n - 1) as usize,
                    at: LogicalPoint {
                        x_centi: spec_logical_x(ov[n - 1], s) as i64,
                        y_centi: spec_logical_y(ov[n - 1], s) as i64,
                    },
                }),
            ]
        } else {
            prefix
        }
    }
}

/// Transform a physical cursor sample into one overlay's logical
/// space, in centi-units, truncating toward zero.
pub fn logical_position(ov: &OverlayDescriptor, s: CursorSample) -> (r: LogicalPoint)
    requires
        ov.wf(),
    ensures
        r.x_centi == spec_logical_x(*ov, s),
        r.y_centi == spec_logical_y(*ov, s),
{
    let dx: i64 = s.x as i64 - ov.monitor_x as i64;
    let dy: i64 = s.y as i64 - ov.monitor_y as i64;
    let h: i64 = ov.scale.hundredths as i64;
    let x: i64 = (dx * 10000) / h;
    let y: i64 = (dy * 10000) / h;
    LogicalPoint { x_centi: x, y_centi: y }
}

/// Per-overlay deadband state: the overlay descriptors captured at
/// startup and, for each, the last emitted logical position.
pub struct CursorPoller {
    pub overlays: Vec<OverlayDescriptor>,
    pub last: Vec<Option<LogicalPoint>>,
}

impl CursorPoller {
    /// One last-emitted entry per overlay, all scales valid.
    pub open spec fn wf(self) -> bool {
        &&& self.overlays@.len() == self.last@.len()
        &&& forall|i: int|
            0 <= i < self.overlays@.len() ==> (#[trigger] self.overlays@[i]).wf()
    }

    /// Start tracking the given overlays with no emission history, so
    /// the first sample is always emitted everywhere.
    pub fn new(overlays: Vec<OverlayDescriptor>) -> (r: CursorPoller)
        requires
            forall|i: int| 0 <= i < overlays@.len() ==> (#[trigger] overlays@[i]).wf(),
        ensures
            r.wf(),
            r.overlays@ == overlays@,
            forall|i: int| 0 <= i < r.last@.len() ==> r.last@[i] is None,
    {
        let n = overlays.len();
        let mut last: Vec<Option<LogicalPoint>> = Vec::new();
        while last.len() < n
            invariant
                last@.len() <= n,
                forall|i: int| 0 <= i < last@.len() ==> last@[i] is None,
            decreases n - last@.len(),
        {
            last.push(None);
        }
        CursorPoller { overlays, last }
    }

    /// Process one cursor sample: emit, for each overlay whose
    /// logical position left the deadband around the last emitted
    /// one, a cursor-moved event, and remember the emitted position.
    pub fn sample(&mut self, s: CursorSample) -> (emits: Vec<CursorEmission>)
        requires
            old(self).wf(),
        ensures
            final(self).wf(),
            final(self).overlays@ == old(self).overlays@,
            final(self).last@.len() == old(self).last@.len(),
            forall|i: int|
                0 <= i < old(self).overlays@.len() ==> final(self).last@[i] == spec_updated_last(
                    old(self).overlays@,
                    old(self).last@,
                    s,
                    i,
                ),
            emits@ == spec_emissions_upto(
                old(self).overlays@,
                old(self).last@,
                s,
                old(self).overlays@.len() as int,
            ),
    {
        let ghost ov0 = self.overlays@;
        let ghost last0 = self.last@;
        let mut emits: Vec<CursorEmission> = Vec::new();
        let n = self.overlays.len();
        let mut idx: usize = 0;
        while idx < n
            invariant
                self.wf(),
                idx <= n,
                n == ov0.len(),
                self.overlays@ == ov0,
                self.last@.len() == last0.len(),
                forall|i: int|
                    0 <= i < idx ==> self.last@[i] == spec_updated_last(ov0, last0, s, i),
                forall|i: int| idx <= i < n ==> self.last@[i] == last0[i],
                emits@ == spec_emissions_upto(ov0, last0, s, idx as int),
            decreases n - idx,
        {
            let ov = self.overlays[idx];
            let lp = logical_position(&ov, s);
            let emit = match self.last[idx] {
                None => true,
                Some(prev) => {
                    let ddx: i128 = lp.x_centi as i128 - prev.x_centi as i128;
                    let ddy: i128 = lp.y_centi as i128 - prev.y_centi as i128;
                    ddx > DEADBAND_CENTI as i128 || ddx < -(DEADBAND_CENTI as i128) || ddy
                        > DEADBAND_CENTI as i128 || ddy < -(DEADBAND_CENTI as i128)
                },
            };
            if emit {
                self.last[idx] = Some(lp);
                emits.push(CursorEmission { overlay: idx, at: lp });
            }
            idx = idx + 1;
            assert(emits@ == spec_emissions_upto(ov0, last0, s, idx as int));
        }
        emits
    }
}

/// Deadband silence for one sample: when every overlay already has an
/// emission history and the sample stays within the deadband of each
/// last emitted position, nothing is emitted and no state changes.
pub proof fn lemma_deadband_silent_step(
    ov: Seq<OverlayDescriptor>,
    last: Seq<Option<LogicalPoint>>,
    s: CursorSample,
    n: int,
)
    requires
        0 <= n <= ov.len(),
        last.len() == ov.len(),
        forall|i: int| 0 <= i < n ==> !spec_should_emit(#[trigger] last[i], spec_logical_x(ov[i], s), spec_logical_y(ov[i], s)),
    ensures
        spec_emissions_upto(ov, last, s, n) == Seq::<CursorEmission>::empty(),
        forall|i: int| 0 <= i < n ==> spec_updated_last(ov, last, s, i) == last[i],
    decreases n,
{
    if n > 0 {
        lemma_deadband_silent_step(ov, last, s, n - 1);
    }
}

/// The poller state after a run of samples, oldest first.
pub open spec fn spec_run_last(
    ov: Seq<OverlayDescriptor>,
    last: Seq<Option<LogicalPoint>>,
    samples: Seq<CursorSample>,
) -> Seq<Option<LogicalPoint>>
    decreases samples.len(),
{
    if samples.len() == 0 {
        last
    } else {
        spec_run_last(
            ov,
            Seq::new(last.len(), |i: int| spec_updated_last(ov, last, samples[0], i)),
            samples.drop_first(),
        )
    }
}

/// The total number of emissions over a run of samples.
pub open spec fn spec_run_emission_count(
    ov: Seq<OverlayDescriptor>,
    last: Seq<Option<LogicalPoint>>,
    samples: Seq<CursorSample>,
) -> int
    decreases samples.len(),
{
    if samples.len() == 0 {
        0
    } else {
        spec_emissions_upto(ov, last, samples[0], ov.len() as int).len()
            + spec_run_emission_count(
            ov,
            Seq::new(last.len(), |i: int| spec_updated_last(ov, last, samples[0], i)),
            samples.drop_first(),
        )
    }
}

/// Deadband silence over a whole run: once every overlay has an
/// emission history, a sequence of samples all of whose logical
/// deltas from those last emitted positions stay within the deadband
/// produces no emissions at all, and the history never changes.
pub proof fn lemma_deadband_silent_run(
    ov: Seq<OverlayDescriptor>,
    last: Seq<Option<LogicalPoint>>,
    samples: Seq<CursorSample>,
)
    requires
        last.len() == ov.len(),
        forall|k: int, i: int|
            0 <= k < samples.len() && 0 <= i < ov.len() ==> !spec_should_emit(
                #[trigger] last[i],
                spec_logical_x(ov[i], #[trigger] samples[k]),
                spec_logical_y(ov[i], samples[k]),
            ),
    ensures
        spec_run_emission_count(ov, last, samples) == 0,
        spec_run_last(ov, last, samples) == last,
    decreases samples.len(),
{
    if samples.len() > 0 {
        lemma_deadband_silent_step(ov, last, samples[0], ov.len() as int);
        let next = Seq::new(last.len(), |i: int| spec_updated_last(ov, last, samples[0], i));
        assert(next =~= last);
        lemma_deadband_silent_run(ov, last, samples.drop_first());
        assert(spec_run_emission_count(ov, last, samples) == 0);
    }
}

} // verus!
