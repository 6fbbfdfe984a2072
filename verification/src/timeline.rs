//! Zoom effects on the trimmed timeline: each effect eases in before its
//! start, holds its scale, and eases out before its end.

use vstd::prelude::*;
use crate::fixed::{floor_div, UNIT};
use crate::text::str_eq;

verus! {

/// The largest time, in microseconds, that the timeline works with.
pub const TIME_LIMIT: i64 = 1_000_000_000_000_000;

/// The largest zoom scale: a thousandfold.
pub const MAX_SCALE: i64 = 1_000_000_000;

/// How long an effect takes to ease in and to ease out.
#[derive(Clone, Copy, Debug, PartialEq, Eq, Structural)]
pub enum Easing {
    Slow,
    Mellow,
    Quick,
    Rapid,
}

impl Easing {
    /// The easing time in microseconds.
    pub open spec fn duration_spec(self) -> int {
        match self {
            Easing::Slow => 500_000,
            Easing::Mellow => 350_000,
            Easing::Quick => 200_000,
            Easing::Rapid => 100_000,
        }
    }

    /// The preset that a name selects; any name but `slow`, `quick` and
    /// `rapid` selects `Mellow`.
    pub open spec fn named(name: Seq<char>) -> Easing {
        if name == "slow"@ {
            Easing::Slow
        } else if name == "quick"@ {
            Easing::Quick
        } else if name == "rapid"@ {
            Easing::Rapid
        } else {
            Easing::Mellow
        }
    }

    /// The easing time in microseconds.
    pub fn duration(self) -> (d: i64)
        ensures
            d == self.duration_spec(),
            100_000 <= d <= 500_000,
    {
        match self {
            Easing::Slow => 500_000,
            Easing::Mellow => 350_000,
            Easing::Quick => 200_000,
            Easing::Rapid => 100_000,
        }
    }

    /// The preset that `name` selects.
    pub fn from_name(name: &str) -> (e: Easing)
        ensures
            e == Easing::named(name@),
    {
        if str_eq(name, "slow") {
            Easing::Slow
        } else if str_eq(name, "quick") {
            Easing::Quick
        } else if str_eq(name, "rapid") {
            Easing::Rapid
        } else {
            Easing::Mellow
        }
    }
}

/// The part of the source that is exported, in microseconds of source time.
#[derive(Clone, Copy, Debug, PartialEq, Eq, Structural)]
pub struct Trim {
    pub start: i64,
    pub end: i64,
}

impl Trim {
    /// A trim window starts at or after zero and ends at or after its start.
    pub open spec fn valid(self) -> bool {
        0 <= self.start <= self.end <= TIME_LIMIT
    }

    /// The length of the trimmed timeline.
    pub open spec fn duration_spec(self) -> int {
        self.end - self.start
    }

    /// Whether the window is valid.
    pub fn is_valid(&self) -> (ok: bool)
        ensures
            ok == self.valid(),
    {
        0 <= self.start && self.start <= self.end && self.end <= TIME_LIMIT
    }

    /// The length of the trimmed timeline.
    pub fn duration(&self) -> (d: i64)
        requires
            self.valid(),
        ensures
            d == self.duration_spec(),
    {
        self.end - self.start
    }
}

/// A zoom on a target point over a span of source time.
#[derive(Clone, Copy, Debug, PartialEq, Eq, Structural)]
pub struct ZoomEffect {
    /// Source time at which the zoom is fully applied, in microseconds.
    pub start_time: i64,
    /// Source time at which the zoom has fully gone, in microseconds.
    pub end_time: i64,
    /// The zoom factor, fixed-point.
    pub scale: i64,
    /// The target point, fixed-point in `[0, 1]`.
    pub target_x: i64,
    pub target_y: i64,
    pub easing: Easing,
}

/// The cubic `n^2 (3d - 2n)`: the smoothstep of `n / d`, times `d^3`.
pub open spec fn smooth_numerator(n: int, d: int) -> int {
    n * n * (3 * d - 2 * n)
}

/// The share `smoothstep(n / d)` of `delta`, rounded down.
pub open spec fn eased(delta: int, n: int, d: int) -> int {
    (delta * smooth_numerator(n, d)) / (d * d * d)
}

impl ZoomEffect {
    /// An effect is valid if it ends after it starts, magnifies by no more
    /// than `MAX_SCALE`, and targets a point of the frame.
    pub open spec fn valid(self) -> bool {
        &&& 0 <= self.start_time < self.end_time <= TIME_LIMIT
        &&& UNIT <= self.scale <= MAX_SCALE
        &&& 0 <= self.target_x <= UNIT
        &&& 0 <= self.target_y <= UNIT
    }

    /// The time on the trimmed timeline at which easing in begins.
    pub open spec fn ramp_start(self, trim: Trim) -> int {
        self.start_time - trim.start - self.easing.duration_spec()
    }

    /// The time on the trimmed timeline at which the hold begins.
    pub open spec fn hold_start(self, trim: Trim) -> int {
        self.start_time - trim.start
    }

    /// The time on the trimmed timeline at which easing out begins.
    pub open spec fn hold_end(self, trim: Trim) -> int {
        self.end_time - trim.start - self.easing.duration_spec()
    }

    /// The time on the trimmed timeline at which the effect is over.
    pub open spec fn ramp_end(self, trim: Trim) -> int {
        self.end_time - trim.start
    }

    /// Whether the effect touches the trimmed timeline at all.
    pub open spec fn in_range(self, trim: Trim) -> bool {
        self.ramp_end(trim) >= 0 && self.ramp_start(trim) <= trim.duration_spec()
    }

    /// Whether the effect takes part in the export: valid and in range.
    pub open spec fn kept(self, trim: Trim) -> bool {
        self.valid() && self.in_range(trim)
    }

    /// The scale that the effect asks for at time `t` of the trimmed
    /// timeline: one outside its window, rising by smoothstep while easing
    /// in, the full scale during the hold, falling by the mirrored
    /// smoothstep while easing out.
    pub open spec fn scale_spec(self, trim: Trim, t: int) -> int {
        let ease = self.easing.duration_spec();
        let delta = self.scale - UNIT;
        if t < self.ramp_start(trim) || t > self.ramp_end(trim) {
            UNIT as int
        } else if t < self.hold_start(trim) {
            UNIT + eased(delta, t - self.ramp_start(trim), ease)
        } else if t < self.hold_end(trim) {
            self.scale as int
        } else {
            UNIT + eased(delta, self.ramp_end(trim) - t, ease)
        }
    }

    /// What the effect adds to the sum of scales at time `t`: its scale
    /// inside its window, nothing outside.
    pub open spec fn contribution(self, trim: Trim, t: int) -> int {
        if self.ramp_start(trim) <= t <= self.ramp_end(trim) {
            self.scale_spec(trim, t)
        } else {
            0
        }
    }

    /// Whether the effect is valid.
    pub fn is_valid(&self) -> (ok: bool)
        ensures
            ok == self.valid(),
    {
        0 <= self.start_time && self.start_time < self.end_time && self.end_time <= TIME_LIMIT
            && UNIT <= self.scale && self.scale <= MAX_SCALE && 0 <= self.target_x
            && self.target_x <= UNIT && 0 <= self.target_y && self.target_y <= UNIT
    }

    /// Whether the effect takes part in the export.
    pub fn is_kept(&self, trim: &Trim) -> (ok: bool)
        requires
            trim.valid(),
        ensures
            ok == self.kept(*trim),
    {
        if !self.is_valid() {
            return false;
        }
        let ease = self.easing.duration();
        let over: i64 = self.end_time - trim.start;
        let begin: i64 = self.start_time - trim.start - ease;
        over >= 0 && begin <= trim.end - trim.start
    }

    /// The scale that the effect asks for at time `t`.
    pub fn scale_at(&self, trim: &Trim, t: i64) -> (s: i64)
        requires
            self.valid(),
            trim.valid(),
        ensures
            s == self.scale_spec(*trim, t as int),
            UNIT <= s <= self.scale,
    {
        let ease = self.easing.duration();
        let delta: i64 = self.scale - UNIT;
        let begin: i64 = self.start_time - trim.start - ease;
        let hold: i64 = self.start_time - trim.start;
        let release: i64 = self.end_time - trim.start - ease;
        let over: i64 = self.end_time - trim.start;
        if t < begin || t > over {
            UNIT
        } else if t < hold {
            UNIT + ease_share(delta, t - begin, ease)
        } else if t < release {
            self.scale
        } else {
            UNIT + ease_share(delta, over - t, ease)
        }
    }
}

/// The cubic is zero at zero, `d^3` at `d`, and between the two in between.
pub proof fn lemma_smooth_bounds(n: int, d: int)
    requires
        0 <= n <= d,
    ensures
        0 <= smooth_numerator(n, d) <= d * d * d,
        smooth_numerator(0, d) == 0,
        smooth_numerator(d, d) == d * d * d,
{
    assert(0 <= n * n * (3 * d - 2 * n)) by (nonlinear_arith)
        requires
            0 <= n <= d,
    ;
    assert(d * d * d - n * n * (3 * d - 2 * n) == (d - n) * (d - n) * (d + 2 * n))
        by (nonlinear_arith);
    assert(0 <= (d - n) * (d - n) * (d + 2 * n)) by (nonlinear_arith)
        requires
            0 <= n <= d,
    ;
    assert(0 * 0 * (3 * d - 2 * 0) == 0) by (nonlinear_arith);
    assert(d * d * (3 * d - 2 * d) == d * d * d) by (nonlinear_arith);
}

/// The cubic does not fall as `n` grows from zero to `d`.
pub proof fn lemma_smooth_monotone(n1: int, n2: int, d: int)
    requires
        0 <= n1 <= n2 <= d,
    ensures
        smooth_numerator(n1, d) <= smooth_numerator(n2, d),
{
    let k = n2 - n1;
    assert(smooth_numerator(n2, d) - smooth_numerator(n1, d) == k * (3 * d * (n1 + n2) - 2 * (n1
        * n1 + n1 * n2 + n2 * n2))) by (nonlinear_arith)
        requires
            k == n2 - n1,
    ;
    assert(3 * d * (n1 + n2) >= 3 * n2 * (n1 + n2)) by (nonlinear_arith)
        requires
            0 <= n1 <= n2 <= d,
    ;
    assert(3 * n2 * (n1 + n2) - 2 * (n1 * n1 + n1 * n2 + n2 * n2) == (n2 - n1) * (n2 + 2 * n1))
        by (nonlinear_arith);
    assert((n2 - n1) * (n2 + 2 * n1) >= 0) by (nonlinear_arith)
        requires
            0 <= n1 <= n2,
    ;
    assert(k * (3 * d * (n1 + n2) - 2 * (n1 * n1 + n1 * n2 + n2 * n2)) >= 0) by (nonlinear_arith)
        requires
            k >= 0,
            3 * d * (n1 + n2) - 2 * (n1 * n1 + n1 * n2 + n2 * n2) >= 0,
    ;
}

/// Smoothstep easing is monotone: a later point of the ramp has no smaller
/// share, the share is nothing at the ramp's foot and everything at its
/// top.
pub proof fn law_easing_monotone(delta: int, n1: int, n2: int, d: int)
    requires
        0 <= delta,
        0 <= n1 <= n2 <= d,
        0 < d,
    ensures
        0 <= eased(delta, n1, d) <= eased(delta, n2, d) <= delta,
        eased(delta, 0, d) == 0,
        eased(delta, d, d) == delta,
{
    let cube = d * d * d;
    assert(cube > 0) by (nonlinear_arith)
        requires
            d > 0,
            cube == d * d * d,
    ;
    lemma_smooth_bounds(n1, d);
    lemma_smooth_bounds(n2, d);
    lemma_smooth_monotone(n1, n2, d);
    let g1 = smooth_numerator(n1, d);
    let g2 = smooth_numerator(n2, d);
    assert(0 <= delta * g1 <= delta * g2 <= delta * cube) by (nonlinear_arith)
        requires
            0 <= delta,
            0 <= g1 <= g2 <= cube,
    ;
    crate::fixed::lemma_quotient_bounds(delta * g1, cube);
    crate::fixed::lemma_quotient_monotone(delta * g1, delta * g2, cube);
    crate::fixed::lemma_quotient_monotone(delta * g2, delta * cube, cube);
    crate::fixed::lemma_floor_quotient(delta * cube, cube, delta);
    assert(delta * smooth_numerator(0, d) == 0) by (nonlinear_arith)
        requires
            smooth_numerator(0, d) == 0,
    ;
    crate::fixed::lemma_floor_quotient(0, cube, 0);
}

/// Over the whole ramp into an effect the scale never falls, up to the
/// full scale at the start of the hold, and over the whole ramp out of it
/// the scale never rises. (An effect shorter than its easing has no hold:
/// its ramp in ends just before its start.)
pub proof fn law_scale_monotone_on_ramps(fx: ZoomEffect, trim: Trim, t1: int, t2: int)
    requires
        fx.valid(),
        trim.valid(),
        t1 <= t2,
    ensures
        fx.ramp_start(trim) <= t1 && (t2 < fx.hold_start(trim) || (t2 == fx.hold_start(trim)
            && fx.hold_start(trim) <= fx.hold_end(trim))) ==> fx.scale_spec(trim, t1)
            <= fx.scale_spec(trim, t2),
        fx.hold_end(trim) <= t1 && fx.hold_start(trim) <= t1 && t2 <= fx.ramp_end(trim)
            ==> fx.scale_spec(trim, t1) >= fx.scale_spec(trim, t2),
        UNIT <= fx.scale_spec(trim, t1) <= fx.scale,
{
    let ease = fx.easing.duration_spec();
    let delta = fx.scale - UNIT;
    if fx.ramp_start(trim) <= t1 && t2 <= fx.hold_start(trim) {
        let n1 = t1 - fx.ramp_start(trim);
        let n2 = t2 - fx.ramp_start(trim);
        law_easing_monotone(delta, n1, n2, ease);
        law_easing_monotone(delta, n1, ease, ease);
    }
    if fx.hold_end(trim) <= t1 && fx.hold_start(trim) <= t1 && t2 <= fx.ramp_end(trim) {
        let n1 = fx.ramp_end(trim) - t1;
        let n2 = fx.ramp_end(trim) - t2;
        law_easing_monotone(delta, n2, n1, ease);
    }
    if fx.ramp_start(trim) <= t1 <= fx.ramp_end(trim) {
        if t1 < fx.hold_start(trim) {
            law_easing_monotone(delta, t1 - fx.ramp_start(trim), ease, ease);
        } else if t1 >= fx.hold_end(trim) {
            law_easing_monotone(delta, fx.ramp_end(trim) - t1, ease, ease);
        }
    }
}

/// The share `smoothstep(n / d)` of `delta`, rounded down.
pub fn ease_share(delta: i64, n: i64, d: i64) -> (r: i64)
    requires
        0 <= delta <= MAX_SCALE,
        0 <= n <= d,
        0 < d <= 500_000,
    ensures
        r == eased(delta as int, n as int, d as int),
        0 <= r <= delta,
{
    proof {
        lemma_smooth_bounds(n as int, d as int);
        law_easing_monotone(delta as int, n as int, n as int, d as int);
        assert(d * d <= 500_000 * 500_000 && d * d > 0) by (nonlinear_arith)
            requires
                0 < d <= 500_000,
        ;
        assert(d * d * d <= 500_000 * 500_000 * 500_000 && d * d * d > 0) by (nonlinear_arith)
            requires
                0 < d <= 500_000,
        ;
        assert(n * n <= 500_000 * 500_000 && n * n >= 0) by (nonlinear_arith)
            requires
                0 <= n <= 500_000,
        ;
        assert(delta * smooth_numerator(n as int, d as int) <= 1_000_000_000 * (500_000 * 500_000
            * 500_000)) by (nonlinear_arith)
            requires
                0 <= delta <= 1_000_000_000,
                0 <= smooth_numerator(n as int, d as int) <= d * d * d,
                d * d * d <= 500_000 * 500_000 * 500_000,
        ;
        assert(delta * smooth_numerator(n as int, d as int) >= 0) by (nonlinear_arith)
            requires
                0 <= delta,
                0 <= smooth_numerator(n as int, d as int),
        ;
    }
    let n_wide: i128 = n as i128;
    let d_wide: i128 = d as i128;
    let square: i128 = n_wide * n_wide;
    let cubic: i128 = square * (3 * d_wide - 2 * n_wide);
    let cube: i128 = d_wide * d_wide * d_wide;
    let product: i128 = (delta as i128) * cubic;
    let q: i128 = floor_div(product, cube);
    q as i64
}

/// The sum of what the kept effects among the first `n` add at time `t`.
pub open spec fn scale_sum(effects: Seq<ZoomEffect>, n: int, trim: Trim, t: int) -> int
    decreases n,
{
    if n <= 0 {
        0
    } else {
        scale_sum(effects, n - 1, trim, t) + if effects[n - 1].kept(trim) {
            effects[n - 1].contribution(trim, t)
        } else {
            0
        }
    }
}

/// The scale of the whole timeline at time `t`: the sum of what the kept
/// effects add, and at least one.
pub open spec fn global_scale(effects: Seq<ZoomEffect>, trim: Trim, t: int) -> int {
    let sum = scale_sum(effects, effects.len() as int, trim, t);
    if sum < UNIT {
        UNIT as int
    } else {
        sum
    }
}

/// Each kept effect adds between nothing and `MAX_SCALE`.
pub proof fn lemma_scale_sum_bounds(effects: Seq<ZoomEffect>, n: int, trim: Trim, t: int)
    requires
        0 <= n <= effects.len(),
        trim.valid(),
    ensures
        0 <= scale_sum(effects, n, trim, t) <= n * MAX_SCALE,
    decreases n,
{
    if n > 0 {
        lemma_scale_sum_bounds(effects, n - 1, trim, t);
        let fx = effects[n - 1];
        if fx.kept(trim) {
            let ease = fx.easing.duration_spec();
            let delta = fx.scale - UNIT;
            if fx.ramp_start(trim) <= t <= fx.ramp_end(trim) {
                if t < fx.hold_start(trim) {
                    law_easing_monotone(delta, t - fx.ramp_start(trim), ease, ease);
                } else if t >= fx.hold_end(trim) {
                    law_easing_monotone(delta, fx.ramp_end(trim) - t, ease, ease);
                }
            }
        }
        assert(n * MAX_SCALE == (n - 1) * MAX_SCALE + MAX_SCALE) by (nonlinear_arith);
    }
}

/// The scale of the whole timeline at time `t`.
pub fn global_scale_at(effects: &Vec<ZoomEffect>, trim: &Trim, t: i64) -> (s: i128)
    requires
        trim.valid(),
    ensures
        s == global_scale(effects@, *trim, t as int),
{
    let mut sum: i128 = 0;
    let mut i: usize = 0;
    while i < effects.len()
        invariant
            i <= effects.len(),
            trim.valid(),
            sum == scale_sum(effects@, i as int, *trim, t as int),
            0 <= sum <= i * MAX_SCALE,
        decreases effects.len() - i,
    {
        let fx = effects[i];
        proof {
            lemma_scale_sum_bounds(effects@, i as int + 1, *trim, t as int);
            assert((i + 1) * MAX_SCALE <= 0x1_0000_0000_0000_0000 * MAX_SCALE) by (nonlinear_arith)
                requires
                    i + 1 <= 0x1_0000_0000_0000_0000,
            ;
        }
        if fx.is_kept(trim) {
            let ease = fx.easing.duration();
            let begin: i64 = fx.start_time - trim.start - ease;
            let over: i64 = fx.end_time - trim.start;
            if begin <= t && t <= over {
                sum = sum + fx.scale_at(trim, t) as i128;
            }
        }
        i += 1;
    }
    if sum < UNIT as i128 {
        UNIT as i128
    } else {
        sum
    }
}

/// Whether the effect asks for a scale at time `t`: it takes part in the
/// export and `t` lies in its window.
pub open spec fn active_at(fx: ZoomEffect, trim: Trim, t: int) -> bool {
    fx.kept(trim) && fx.ramp_start(trim) <= t <= fx.ramp_end(trim)
}

/// Whether the windows of two effects have a time in common.
pub open spec fn overlap(a: ZoomEffect, b: ZoomEffect, trim: Trim) -> bool {
    a.ramp_start(trim) <= b.ramp_end(trim) && b.ramp_start(trim) <= a.ramp_end(trim)
}

/// Whether effects `i` and `j` both take part in the export and overlap.
pub open spec fn clash(effects: Seq<ZoomEffect>, trim: Trim, i: int, j: int) -> bool {
    effects[i].kept(trim) && effects[j].kept(trim) && overlap(effects[i], effects[j], trim)
}

/// Whether no two of the effects that take part in the export overlap.
pub open spec fn disjoint(effects: Seq<ZoomEffect>, trim: Trim) -> bool {
    forall|i: int, j: int| 0 <= i < j < effects.len() ==> !clash(effects, trim, i, j)
}

/// The first pair of effects, in order of the first and then of the
/// second index, that take part in the export and overlap.
pub fn first_overlap(effects: &Vec<ZoomEffect>, trim: &Trim) -> (pair: Option<(usize, usize)>)
    requires
        trim.valid(),
    ensures
        pair.is_none() == disjoint(effects@, *trim),
        match pair {
            Some((i, j)) => {
                &&& i < j < effects@.len()
                &&& clash(effects@, *trim, i as int, j as int)
                &&& forall|a: int, b: int|
                    0 <= a < b < effects@.len() && (a < i || (a == i && b < j)) ==> !clash(
                        effects@,
                        *trim,
                        a,
                        b,
                    )
            },
            None => true,
        },
{
    let n: usize = effects.len();
    let mut i: usize = 0;
    while i < n
        invariant
            i <= n,
            n == effects@.len(),
            trim.valid(),
            forall|a: int, b: int| 0 <= a < b < n && a < i ==> !clash(effects@, *trim, a, b),
        decreases n - i,
    {
        let first: ZoomEffect = effects[i];
        if first.is_kept(trim) {
            let first_begin: i64 = first.start_time - trim.start - first.easing.duration();
            let first_over: i64 = first.end_time - trim.start;
            let mut j: usize = i + 1;
            while j < n
                invariant
                    i < j <= n,
                    n == effects@.len(),
                    trim.valid(),
                    first == effects@[i as int],
                    first.kept(*trim),
                    first_begin == first.ramp_start(*trim),
                    first_over == first.ramp_end(*trim),
                    forall|a: int, b: int|
                        0 <= a < b < n && a < i ==> !clash(effects@, *trim, a, b),
                    forall|b: int| i < b < j ==> !clash(effects@, *trim, i as int, b),
                decreases n - j,
            {
                let second: ZoomEffect = effects[j];
                if second.is_kept(trim) {
                    let begin: i64 = second.start_time - trim.start - second.easing.duration();
                    let over: i64 = second.end_time - trim.start;
                    if first_begin <= over && begin <= first_over {
                        proof {
                            assert(clash(effects@, *trim, i as int, j as int));
                        }
                        return Some((i, j));
                    }
                }
                j += 1;
            }
        }
        i += 1;
    }
    None
}

/// Where no two effects overlap, the scales never add up: the sum over
/// the first `n` effects is the scale of the one effect among them that
/// is active, or nothing.
pub proof fn lemma_disjoint_sum(effects: Seq<ZoomEffect>, trim: Trim, t: int, n: int)
    requires
        trim.valid(),
        disjoint(effects, trim),
        0 <= n <= effects.len(),
    ensures
        (forall|i: int| 0 <= i < n ==> !active_at(#[trigger] effects[i], trim, t)) ==> scale_sum(
            effects,
            n,
            trim,
            t,
        ) == 0,
        forall|k: int|
            0 <= k < n && active_at(#[trigger] effects[k], trim, t) ==> scale_sum(
                effects,
                n,
                trim,
                t,
            ) == effects[k].scale_spec(trim, t),
    decreases n,
{
    if n > 0 {
        lemma_disjoint_sum(effects, trim, t, n - 1);
        let last = effects[n - 1];
        assert forall|k: int| 0 <= k < n && active_at(#[trigger] effects[k], trim, t) implies scale_sum(
            effects,
            n,
            trim,
            t,
        ) == effects[k].scale_spec(trim, t) by {
            if k < n - 1 {
                // the last effect cannot be active too
                if active_at(last, trim, t) {
                    assert(clash(effects, trim, k, n - 1));
                }
            } else {
                assert forall|i: int| 0 <= i < n - 1 implies !active_at(
                    #[trigger] effects[i],
                    trim,
                    t,
                ) by {
                    if active_at(effects[i], trim, t) {
                        assert(clash(effects, trim, i, n - 1));
                    }
                }
            }
        }
    }
}

/// Where no two effects overlap, the scale of the whole timeline at any
/// time is the scale of the one effect that is active then, and one where
/// none is; it never exceeds the largest scale asked for.
pub proof fn law_disjoint_effects_do_not_add(effects: Seq<ZoomEffect>, trim: Trim, t: int)
    requires
        trim.valid(),
        disjoint(effects, trim),
    ensures
        (forall|i: int| 0 <= i < effects.len() ==> !active_at(#[trigger] effects[i], trim, t))
            ==> global_scale(effects, trim, t) == UNIT,
        forall|k: int|
            0 <= k < effects.len() && active_at(#[trigger] effects[k], trim, t) ==> global_scale(
                effects,
                trim,
                t,
            ) == effects[k].scale_spec(trim, t),
        UNIT <= global_scale(effects, trim, t) <= MAX_SCALE,
{
    lemma_disjoint_sum(effects, trim, t, effects.len() as int);
    assert forall|k: int| 0 <= k < effects.len() && active_at(
        #[trigger] effects[k],
        trim,
        t,
    ) implies UNIT <= effects[k].scale_spec(trim, t) <= MAX_SCALE by {
        let fx = effects[k];
        let ease = fx.easing.duration_spec();
        let delta = fx.scale - UNIT;
        if t < fx.hold_start(trim) {
            law_easing_monotone(delta, t - fx.ramp_start(trim), ease, ease);
        } else if t >= fx.hold_end(trim) {
            law_easing_monotone(delta, fx.ramp_end(trim) - t, ease, ease);
        }
    }
    if exists|k: int| 0 <= k < effects.len() && active_at(#[trigger] effects[k], trim, t) {
        let k = choose|k: int| 0 <= k < effects.len() && active_at(#[trigger] effects[k], trim, t);
        assert(global_scale(effects, trim, t) == effects[k].scale_spec(trim, t));
    }
}

} // verus!
