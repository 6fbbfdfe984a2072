//! The viewport's path during the hold of a zoom effect: it follows the
//! cursor once the cursor leaves the inner part of the viewport, and never
//! shows anything outside the frame.

use vstd::prelude::*;
use crate::cursor::{cursor_at, cursor_position, CursorSample};
use crate::fixed::{ceil_div, clamp_spec, UNIT};
use crate::keyframes::{Keyframe, KeyframeTable};
use crate::timeline::{Trim, ZoomEffect, MAX_SCALE};

verus! {

/// The most keyframes that one pan track may hold.
pub const MAX_PAN_KEYFRAMES: usize = 40;

/// The axis of the frame that a pan track moves along.
#[derive(Clone, Copy, Debug, PartialEq, Eq, Structural)]
pub enum Axis {
    Horizontal,
    Vertical,
}

/// Half the viewport's extent at `scale`, rounded up: the least distance
/// that the viewport's centre keeps from the frame's edges.
pub open spec fn half_view(scale: int) -> int {
    ceil_div(500_000_000_000int, scale)
}

/// The distance from the viewport's centre within which the cursor does
/// not move the viewport: seven tenths of half the viewport.
pub open spec fn dead_zone(scale: int) -> int {
    (half_view(scale) * 7) / 10
}

/// One step of the viewport's centre towards a cursor that has left the
/// dead zone: by four twenty-fifths of the overshoot, then clamped.
pub open spec fn pan_step(center: int, cursor: int, inner: int, lo: int, hi: int) -> int {
    let rel = cursor - center;
    let moved = if rel > inner {
        center + ((rel - inner) * 4) / 25
    } else if -rel > inner {
        center - ((-rel - inner) * 4) / 25
    } else {
        center
    };
    clamp_spec(moved, lo, hi)
}

/// The coordinate of `p` along `axis`.
pub open spec fn along(p: (int, int), axis: Axis) -> int {
    match axis {
        Axis::Horizontal => p.0,
        Axis::Vertical => p.1,
    }
}

/// What one pan simulation works from.
#[derive(Clone, Copy, Debug, PartialEq, Eq, Structural)]
pub struct PanSetup {
    /// The start of the hold on the trimmed timeline, in microseconds.
    pub origin: i64,
    /// The end of the hold on the trimmed timeline.
    pub limit: i64,
    /// What turns trimmed time into source time.
    pub offset: i64,
    /// The index of the last tick.
    pub ticks: u64,
    /// Every `stride`-th tick leaves a keyframe.
    pub stride: u64,
    /// The least and the greatest place for the viewport's centre.
    pub lo: i64,
    pub hi: i64,
    /// The dead zone's radius.
    pub inner: i64,
    /// Where the centre starts.
    pub initial: i64,
}

impl PanSetup {
    /// The time of tick `k` on the trimmed timeline: sixty ticks make a
    /// second.
    pub open spec fn tick_time(self, k: int) -> int {
        self.origin + (k * 1_000_000) / 60
    }

    /// The time of tick `k` in milliseconds of source time.
    pub open spec fn tick_ms(self, k: int) -> int {
        (self.tick_time(k) + self.offset) / 1000
    }

    /// Whether tick `k` leaves a keyframe.
    pub open spec fn recorded(self, k: int) -> bool {
        k % (self.stride as int) == 0 || k == self.ticks
    }
}

/// The index of the last tick of a hold of `duration` microseconds.
pub open spec fn tick_count(duration: int) -> int {
    ceil_div(duration * 60, 1_000_000)
}

/// The stride that keeps a track of `ticks + 1` ticks within
/// `MAX_PAN_KEYFRAMES` keyframes.
pub open spec fn stride_for(ticks: int) -> int {
    if ticks < 40 {
        1
    } else {
        ticks / 39 + 1
    }
}

/// The setup for the hold of `fx` along `axis`.
pub open spec fn setup_for(fx: ZoomEffect, trim: Trim, axis: Axis) -> PanSetup {
    let lo = half_view(fx.scale as int);
    let hi = UNIT - lo;
    let target = match axis {
        Axis::Horizontal => fx.target_x,
        Axis::Vertical => fx.target_y,
    };
    let ticks = tick_count(fx.hold_end(trim) - fx.hold_start(trim));
    PanSetup {
        origin: fx.hold_start(trim) as i64,
        limit: fx.hold_end(trim) as i64,
        offset: trim.start,
        ticks: ticks as u64,
        stride: stride_for(ticks) as u64,
        lo: lo as i64,
        hi: hi as i64,
        inner: dead_zone(fx.scale as int) as i64,
        initial: clamp_spec(target as int, lo, hi) as i64,
    }
}

/// The viewport's centre after tick `k`. At tick zero, the start of the
/// hold, it is still the initial centre; each later tick before the end of
/// the hold moves it one step. A tick at or after the end of the hold does
/// not move it.
pub open spec fn center_after(setup: PanSetup, log: Seq<CursorSample>, axis: Axis, k: int) -> int
    decreases k + 1,
{
    if k <= 0 {
        setup.initial as int
    } else {
        let prev = center_after(setup, log, axis, k - 1);
        if setup.tick_time(k) < setup.limit {
            match cursor_position(log, setup.tick_ms(k)) {
                Some(p) => pan_step(
                    prev,
                    along(p, axis),
                    setup.inner as int,
                    setup.lo as int,
                    setup.hi as int,
                ),
                None => prev,
            }
        } else {
            prev
        }
    }
}

/// The keyframes that the first `n` ticks leave.
pub open spec fn pan_frames(setup: PanSetup, log: Seq<CursorSample>, axis: Axis, n: int) -> Seq<
    Keyframe,
>
    decreases n,
{
    if n <= 0 {
        Seq::<Keyframe>::empty()
    } else {
        let prev = pan_frames(setup, log, axis, n - 1);
        if setup.recorded(n - 1) {
            prev.push(
                Keyframe {
                    t: setup.tick_time(n - 1) as i64,
                    v: center_after(setup, log, axis, n - 1) as i64,
                },
            )
        } else {
            prev
        }
    }
}

/// Whether the log holds a sample taken during the hold of `fx`.
pub open spec fn sampled_during_hold(log: Seq<CursorSample>, fx: ZoomEffect) -> bool {
    exists|i: int|
        0 <= i < log.len() && fx.start_time / 1000 <= (#[trigger] log[i]).timestamp_ms <= (
        fx.end_time - fx.easing.duration_spec()) / 1000
}

/// The pan track of `fx` along `axis`: the simulated path where the hold
/// is not empty and the cursor was sampled during it, else the clamped
/// target alone.
pub open spec fn pan_track_spec(
    fx: ZoomEffect,
    trim: Trim,
    log: Seq<CursorSample>,
    axis: Axis,
) -> Seq<Keyframe> {
    let setup = setup_for(fx, trim, axis);
    if fx.hold_end(trim) <= fx.hold_start(trim) || !sampled_during_hold(log, fx) {
        seq![Keyframe { t: setup.origin, v: setup.initial }]
    } else {
        pan_frames(setup, log, axis, setup.ticks + 1)
    }
}

/// Half the viewport at a scale between one and `MAX_SCALE` is at most
/// half the frame, so the centre's bounds are not empty; the dead zone is
/// no larger.
pub proof fn lemma_half_view_bounds(scale: int)
    requires
        UNIT <= scale <= MAX_SCALE,
    ensures
        500 <= half_view(scale) <= 500_000,
        0 <= dead_zone(scale) <= half_view(scale),
{
    let n = 500_000 * 1_000_000 + scale - 1;
    assert(500_000 * scale >= 500_000 * 1_000_000) by (nonlinear_arith)
        requires
            scale >= 1_000_000,
    ;
    crate::fixed::lemma_quotient_bounds(n, scale);
    let q = n / scale;
    if q > 500_000 {
        assert(scale * q >= scale * 500_001) by (nonlinear_arith)
            requires
                q >= 500_001,
                scale > 0,
        ;
    }
    if q < 500 {
        assert(scale * q <= scale * 499) by (nonlinear_arith)
            requires
                q <= 499,
                scale > 0,
        ;
        assert(scale * 499 + scale <= 1_000_000_000 * 500) by (nonlinear_arith)
            requires
                scale <= 1_000_000_000,
        ;
    }
}

/// A step leaves the centre where it is while the cursor is in the dead
/// zone, and else moves it towards the cursor, never past the point at
/// which the cursor would enter the dead zone again.
pub proof fn law_pan_step(center: int, cursor: int, inner: int, lo: int, hi: int)
    requires
        lo <= center <= hi,
        0 <= inner,
    ensures
        -inner <= cursor - center <= inner ==> pan_step(center, cursor, inner, lo, hi) == center,
        cursor - center > inner ==> center <= pan_step(center, cursor, inner, lo, hi) <= cursor
            - inner,
        center - cursor > inner ==> cursor + inner <= pan_step(center, cursor, inner, lo, hi)
            <= center,
{
}

/// The viewport never leaves the frame: after every tick the centre lies
/// between the bounds of the setup.
pub proof fn law_center_within_bounds(
    setup: PanSetup,
    log: Seq<CursorSample>,
    axis: Axis,
    k: int,
)
    requires
        setup.lo <= setup.initial <= setup.hi,
    ensures
        setup.lo <= center_after(setup, log, axis, k) <= setup.hi,
    decreases k + 1,
{
    if k > 0 {
        law_center_within_bounds(setup, log, axis, k - 1);
    }
}

/// What the setup of a valid effect holds: the hold's ends, a centre
/// within its bounds, and for a hold that is not empty at least one tick
/// and a stride of at least one.
pub proof fn lemma_setup_for(fx: ZoomEffect, trim: Trim, axis: Axis)
    requires
        fx.valid(),
        trim.valid(),
    ensures
        setup_for(fx, trim, axis).origin == fx.hold_start(trim),
        setup_for(fx, trim, axis).limit == fx.hold_end(trim),
        setup_for(fx, trim, axis).lo == half_view(fx.scale as int),
        setup_for(fx, trim, axis).hi == UNIT - half_view(fx.scale as int),
        setup_for(fx, trim, axis).lo <= setup_for(fx, trim, axis).initial <= setup_for(
            fx,
            trim,
            axis,
        ).hi,
        fx.hold_end(trim) > fx.hold_start(trim) ==> 1 <= setup_for(fx, trim, axis).ticks
            <= 60_000_000_000 && setup_for(fx, trim, axis).stride >= 1,
{
    lemma_half_view_bounds(fx.scale as int);
}

/// The keyframes of the first `n` ticks are in order of time, all before
/// tick `n`, and the first of them holds the initial centre at the start
/// of the hold.
pub proof fn lemma_pan_frames(setup: PanSetup, log: Seq<CursorSample>, axis: Axis, n: int)
    requires
        setup.stride >= 1,
        -1_000_000_000_000_000 <= setup.origin <= 1_000_000_000_000_000,
        setup.lo <= setup.initial <= setup.hi,
        0 <= n <= 60_000_000_002,
    ensures
        crate::keyframes::increasing(pan_frames(setup, log, axis, n)),
        forall|i: int|
            0 <= i < pan_frames(setup, log, axis, n).len() ==> (#[trigger] pan_frames(
                setup,
                log,
                axis,
                n,
            )[i]).t < setup.tick_time(n),
        n >= 1 ==> pan_frames(setup, log, axis, n).len() >= 1 && pan_frames(setup, log, axis, n)[0]
            == (Keyframe { t: setup.origin, v: setup.initial }),
    decreases n,
{
    if n > 0 {
        lemma_pan_frames(setup, log, axis, n - 1);
        law_center_within_bounds(setup, log, axis, n - 1);
        let prev = pan_frames(setup, log, axis, n - 1);
        let now = pan_frames(setup, log, axis, n);
        assert(setup.tick_time(n - 1) < setup.tick_time(n));
        if n == 1 {
            assert(0int % (setup.stride as int) == 0);
            assert(prev.len() == 0);
        }
        assert forall|i: int, j: int| 0 <= i < j < now.len() implies now[i].t < now[j].t by {
            if j < prev.len() {
                assert(prev[i].t < prev[j].t);
            } else {
                assert(prev[i].t < setup.tick_time(n - 1));
            }
        }
    }
}

/// The pan is held at the target until the hold begins: at every time up
/// to the start of the hold the pan track's function has the clamped
/// target as its value.
pub proof fn law_pan_held_until_hold(
    fx: ZoomEffect,
    trim: Trim,
    log: Seq<CursorSample>,
    axis: Axis,
    t: int,
)
    requires
        fx.valid(),
        trim.valid(),
        t <= fx.hold_start(trim),
    ensures
        pan_track_spec(fx, trim, log, axis).len() >= 1,
        pan_track_spec(fx, trim, log, axis)[0] == (Keyframe {
            t: fx.hold_start(trim) as i64,
            v: setup_for(fx, trim, axis).initial,
        }),
        crate::keyframes::interpolate(pan_track_spec(fx, trim, log, axis), t) == setup_for(
            fx,
            trim,
            axis,
        ).initial,
{
    let setup = setup_for(fx, trim, axis);
    lemma_setup_for(fx, trim, axis);
    let track = pan_track_spec(fx, trim, log, axis);
    if fx.hold_end(trim) <= fx.hold_start(trim) || !sampled_during_hold(log, fx) {
        assert(track.len() == 1);
        assert(track[0] == (Keyframe { t: setup.origin, v: setup.initial }));
    } else {
        lemma_pan_frames(setup, log, axis, setup.ticks + 1);
        crate::keyframes::law_constant_outside(track, t);
    }
}

/// The text of a pan track: the bare target with four fractional digits
/// where the track holds the target alone, else the track's function.
pub open spec fn pan_text(track: Seq<Keyframe>) -> Seq<char> {
    if track.len() == 1 {
        crate::text::places_text(track[0].v as int, 4)
    } else {
        crate::keyframes::interpolation_text(track)
    }
}

/// The text of a pan track.
pub fn pan_expression(track: &KeyframeTable) -> (text: String)
    ensures
        text@ == pan_text(track@),
{
    match track.get(0) {
        Some(only) => if track.len() == 1 {
            let mut out = String::new();
            crate::text::push_places(&mut out, only.v, 4);
            proof {
                assert(out@ =~= crate::text::places_text(only.v as int, 4));
            }
            out
        } else {
            track.render()
        },
        None => track.render(),
    }
}

/// Half the viewport's extent at `scale`, rounded up.
pub fn viewport_margin(scale: i64) -> (m: i64)
    requires
        UNIT <= scale <= MAX_SCALE,
    ensures
        m == half_view(scale as int),
        500 <= m <= 500_000,
{
    proof {
        lemma_half_view_bounds(scale as int);
    }
    let n: i64 = 500_000 * 1_000_000 + scale - 1;
    n / scale
}

fn step_center(center: i64, cursor: i64, inner: i64, lo: i64, hi: i64) -> (r: i64)
    requires
        lo <= hi,
        inner >= 0,
    ensures
        r == pan_step(center as int, cursor as int, inner as int, lo as int, hi as int),
        lo <= r <= hi,
{
    let rel: i128 = cursor as i128 - center as i128;
    let moved: i128 = if rel > inner as i128 {
        center as i128 + ((rel - inner as i128) * 4) / 25
    } else if -rel > inner as i128 {
        center as i128 - ((-rel - inner as i128) * 4) / 25
    } else {
        center as i128
    };
    if moved < lo as i128 {
        lo
    } else if moved > hi as i128 {
        hi
    } else {
        moved as i64
    }
}

fn has_sample_during_hold(log: &Vec<CursorSample>, fx: &ZoomEffect) -> (found: bool)
    requires
        fx.valid(),
    ensures
        found == sampled_during_hold(log@, *fx),
{
    let ease: i64 = fx.easing.duration();
    let first_ms: i64 = fx.start_time / 1000;
    let last: i64 = fx.end_time - ease;
    if last < 0 {
        proof {
            assert((fx.end_time - fx.easing.duration_spec()) / 1000 < 0);
        }
        return false;
    }
    let last_ms: i64 = last / 1000;
    let mut i: usize = 0;
    while i < log.len()
        invariant
            i <= log.len(),
            first_ms == fx.start_time / 1000,
            last_ms == (fx.end_time - fx.easing.duration_spec()) / 1000,
            0 <= first_ms,
            0 <= last_ms,
            forall|j: int|
                0 <= j < i ==> !(first_ms <= (#[trigger] log@[j]).timestamp_ms <= last_ms),
        decreases log.len() - i,
    {
        let ts: u64 = log[i].timestamp_ms;
        if first_ms as u64 <= ts && ts <= last_ms as u64 {
            return true;
        }
        i += 1;
    }
    false
}

/// The setup for the hold of `fx` along `axis`.
pub fn pan_setup(fx: &ZoomEffect, trim: &Trim, axis: Axis) -> (setup: PanSetup)
    requires
        fx.valid(),
        trim.valid(),
        fx.hold_end(*trim) > fx.hold_start(*trim),
    ensures
        setup == setup_for(*fx, *trim, axis),
        setup.lo <= setup.initial <= setup.hi,
        0 <= setup.lo <= setup.hi <= UNIT,
        setup.inner >= 0,
        setup.stride >= 1,
        setup.ticks <= 60_000_000_000,
        setup.ticks < 40 ==> setup.stride == 1,
        setup.ticks >= 40 ==> setup.stride * 39 > setup.ticks,
        setup.origin == fx.hold_start(*trim),
        setup.limit == fx.hold_end(*trim),
        setup.offset == trim.start,
{
    proof {
        lemma_half_view_bounds(fx.scale as int);
    }
    let ease: i64 = fx.easing.duration();
    let lo: i64 = viewport_margin(fx.scale);
    let hi: i64 = UNIT - lo;
    let target: i64 = match axis {
        Axis::Horizontal => fx.target_x,
        Axis::Vertical => fx.target_y,
    };
    let origin: i64 = fx.start_time - trim.start;
    let limit: i64 = fx.end_time - trim.start - ease;
    let duration: i64 = limit - origin;
    let ticks: u64 = ((duration * 60 + 999_999) / 1_000_000) as u64;
    let stride: u64 = if ticks < 40 {
        1
    } else {
        ticks / 39 + 1
    };
    PanSetup {
        origin,
        limit,
        offset: trim.start,
        ticks,
        stride,
        lo,
        hi,
        inner: (lo * 7) / 10,
        initial: crate::fixed::clamp(target, lo, hi),
    }
}

/// The pan track of `fx` along `axis`, over the cursor log of the
/// recording.
pub fn pan_track(fx: &ZoomEffect, trim: &Trim, log: &Vec<CursorSample>, axis: Axis) -> (table:
    KeyframeTable)
    requires
        fx.valid(),
        trim.valid(),
    ensures
        table@ == pan_track_spec(*fx, *trim, log@, axis),
        table@[0] == (Keyframe {
            t: fx.hold_start(*trim) as i64,
            v: setup_for(*fx, *trim, axis).initial,
        }),
        table.wf(),
        1 <= table@.len() <= MAX_PAN_KEYFRAMES,
        forall|i: int|
            0 <= i < table@.len() ==> half_view(fx.scale as int) <= (#[trigger] table@[i]).v
                <= UNIT - half_view(fx.scale as int),
{
    proof {
        lemma_half_view_bounds(fx.scale as int);
    }
    let ease: i64 = fx.easing.duration();
    let hold_start: i64 = fx.start_time - trim.start;
    let hold_end: i64 = fx.end_time - trim.start - ease;
    let mut table = KeyframeTable::new();
    if hold_end <= hold_start || !has_sample_during_hold(log, fx) {
        let lo: i64 = viewport_margin(fx.scale);
        let hi: i64 = UNIT - lo;
        let target: i64 = match axis {
            Axis::Horizontal => fx.target_x,
            Axis::Vertical => fx.target_y,
        };
        table.push(Keyframe { t: hold_start, v: crate::fixed::clamp(target, lo, hi) });
        proof {
            assert(table@ =~= seq![
                Keyframe {
                    t: setup_for(*fx, *trim, axis).origin,
                    v: setup_for(*fx, *trim, axis).initial,
                },
            ]);
        }
        return table;
    }
    let setup: PanSetup = pan_setup(fx, trim, axis);
    let mut center: i64 = setup.initial;
    let mut k: u64 = 0;
    while k <= setup.ticks
        invariant
            k <= setup.ticks + 1,
            setup.ticks <= 60_000_000_000,
            setup.stride >= 1,
            setup.ticks < 40 ==> setup.stride == 1,
            setup.ticks >= 40 ==> setup.stride * 39 > setup.ticks,
            -1_000_000_000_000_000 <= setup.origin <= 1_000_000_000_000_000,
            0 <= setup.offset <= 1_000_000_000_000_000,
            setup.origin + setup.offset >= 0,
            setup.inner >= 0,
            setup.lo <= setup.hi,
            setup.lo <= center <= setup.hi,
            center == center_after(setup, log@, axis, k as int - 1),
            table.wf(),
            table@ == pan_frames(setup, log@, axis, k as int),
            forall|i: int| 0 <= i < table@.len() ==> (#[trigger] table@[i]).t < setup.tick_time(k as int),
            forall|i: int|
                0 <= i < table@.len() ==> setup.lo <= (#[trigger] table@[i]).v <= setup.hi,
            k <= setup.ticks ==> table@.len() == 0 || (table@.len() - 1) * setup.stride < k,
            k > setup.ticks ==> 1 <= table@.len() <= 40,
            k > 0 ==> table@.len() >= 1,
            table@.len() >= 1 ==> table@[0] == (Keyframe { t: setup.origin, v: setup.initial }),
        decreases setup.ticks + 1 - k,
    {
        let t: i64 = setup.origin + ((k * 1_000_000) / 60) as i64;
        if k > 0 && t < setup.limit {
            let ms: u64 = ((t + setup.offset) / 1000) as u64;
            match cursor_at(log, ms) {
                Some(p) => {
                    let toward: i64 = match axis {
                        Axis::Horizontal => p.0,
                        Axis::Vertical => p.1,
                    };
                    center = step_center(center, toward, setup.inner, setup.lo, setup.hi);
                },
                None => {},
            }
        }
        let ghost before = table@;
        if k % setup.stride == 0 || k == setup.ticks {
            let kept: bool = table.push(Keyframe { t, v: center });
            proof {
                assert(kept);
                let len = before.len() as int;
                let stride = setup.stride as int;
                let ticks = setup.ticks as int;
                if len > 0 {
                    if k % setup.stride == 0 {
                        // the keyframes so far stand at earlier multiples of the stride
                        let m = k as int / stride;
                        crate::fixed::lemma_quotient_bounds(k as int, stride);
                        assert(k as int == stride * m);
                        assert(len <= m) by (nonlinear_arith)
                            requires
                                (len - 1) * stride < stride * m,
                                stride >= 1,
                        ;
                        assert(len * stride <= k) by (nonlinear_arith)
                            requires
                                len <= m,
                                k as int == stride * m,
                                stride >= 1,
                        ;
                    }
                    if k == setup.ticks {
                        if ticks >= 40 {
                            assert(len - 1 < 39) by (nonlinear_arith)
                                requires
                                    (len - 1) * stride < ticks,
                                    stride * 39 > ticks,
                                    stride >= 1,
                            ;
                        } else {
                            assert((len - 1) * stride == len - 1) by (nonlinear_arith)
                                requires
                                    stride == 1,
                            ;
                        }
                    }
                }
            }
        } else {
            proof {
                let len = before.len() as int;
                let stride = setup.stride as int;
                assert(len == 0 || (len - 1) * stride < k + 1);
            }
        }
        k += 1;
    }
    table
}

} // verus!
