//! Screen coordinates and their normal form: a point of the capture target
//! as two fixed-point numbers in `[0, 1]`.

use vstd::prelude::*;
use crate::fixed::{ceil_div, floor_div, UNIT};
use crate::frame::{even_dimension, even_floor};

verus! {

/// A rectangle of the screen, in pixels.
#[derive(Clone, Copy, Debug, PartialEq, Eq, Structural)]
pub struct Bounds {
    pub x: i32,
    pub y: i32,
    pub width: u32,
    pub height: u32,
}

impl Bounds {
    /// A rectangle is valid if it is not empty.
    pub open spec fn valid(self) -> bool {
        self.width > 0 && self.height > 0
    }

    /// Whether the rectangle is valid.
    pub fn is_valid(&self) -> (ok: bool)
        ensures
            ok == self.valid(),
    {
        self.width > 0 && self.height > 0
    }
}

/// Where along an extent a raw coordinate lies: the distance from the
/// origin as a fixed-point share of the extent, rounded down.
pub open spec fn normalized(raw: int, origin: int, extent: int) -> int {
    ((raw - origin) * UNIT) / extent
}

/// The raw coordinate of a share of an extent, rounded up.
pub open spec fn denormalized(share: int, origin: int, extent: int) -> int {
    origin + ceil_div(share * extent, UNIT as int)
}

/// Whether a raw coordinate lies on the extent, its ends included.
pub open spec fn within(raw: int, origin: int, extent: int) -> bool {
    origin <= raw <= origin + extent
}

/// The normal form of a raw point, or nothing for a point outside the
/// bounds.
pub open spec fn normalize_spec(raw_x: int, raw_y: int, bounds: Bounds) -> Option<(int, int)> {
    if within(raw_x, bounds.x as int, bounds.width as int) && within(
        raw_y,
        bounds.y as int,
        bounds.height as int,
    ) {
        Some(
            (
                normalized(raw_x, bounds.x as int, bounds.width as int),
                normalized(raw_y, bounds.y as int, bounds.height as int),
            ),
        )
    } else {
        None
    }
}

/// A coordinate on the extent has a normal form between zero and one.
pub proof fn lemma_normalized_range(raw: int, origin: int, extent: int)
    requires
        extent > 0,
        within(raw, origin, extent),
    ensures
        0 <= normalized(raw, origin, extent) <= UNIT,
{
    let d = raw - origin;
    assert(0 <= d * UNIT <= extent * UNIT) by (nonlinear_arith)
        requires
            0 <= d <= extent,
    ;
    crate::fixed::lemma_quotient_bounds(d * UNIT, extent);
    crate::fixed::lemma_quotient_monotone(d * UNIT, extent * UNIT, extent);
    assert(extent * UNIT == UNIT * extent) by (nonlinear_arith);
    crate::fixed::lemma_floor_quotient(extent * UNIT, extent, UNIT as int);
}

/// Normalizing a coordinate and mapping it back gives the coordinate
/// again, short by less than one part in `UNIT` of the extent: exactly,
/// where the extent is at most `UNIT` pixels.
pub proof fn law_round_trip(raw: int, origin: int, extent: int)
    requires
        extent > 0,
        within(raw, origin, extent),
    ensures
        denormalized(normalized(raw, origin, extent), origin, extent) <= raw,
        raw - denormalized(normalized(raw, origin, extent), origin, extent) <= (extent - 1) / (
        UNIT as int),
        extent <= UNIT ==> denormalized(normalized(raw, origin, extent), origin, extent) == raw,
{
    let unit = UNIT as int;
    let d = raw - origin;
    let n = normalized(raw, origin, extent);
    lemma_normalized_range(raw, origin, extent);
    assert(0 <= d * unit) by (nonlinear_arith)
        requires
            0 <= d,
            unit > 0,
    ;
    crate::fixed::lemma_quotient_bounds(d * unit, extent);
    // n * extent <= d * unit < n * extent + extent
    assert(extent * n == n * extent) by (nonlinear_arith);
    let m = ceil_div(n * extent, unit);
    assert(0 <= n * extent) by (nonlinear_arith)
        requires
            0 <= n,
            0 < extent,
    ;
    crate::fixed::lemma_quotient_bounds(n * extent + unit - 1, unit);
    // m * unit >= n * extent, and m * unit < n * extent + unit
    assert(unit * m == m * unit) by (nonlinear_arith);
    if m > d {
        assert(m * unit >= d * unit + unit) by (nonlinear_arith)
            requires
                m >= d + 1,
                unit > 0,
        ;
    }
    // (d - m) * unit < extent
    assert((d - m) * unit == d * unit - m * unit) by (nonlinear_arith);
    crate::fixed::lemma_quotient_bounds(extent - 1, unit);
    let tol = (extent - 1) / unit;
    if d - m > tol {
        assert((d - m) * unit >= (tol + 1) * unit) by (nonlinear_arith)
            requires
                d - m >= tol + 1,
                unit > 0,
        ;
        assert((tol + 1) * unit == unit * tol + unit) by (nonlinear_arith);
    }
    if extent <= unit {
        crate::fixed::lemma_floor_quotient(extent - 1, unit, 0);
    }
}

/// The share of the extent at which `raw` lies, for a `raw` on the extent.
fn normalize_axis(raw: i32, origin: i32, extent: u32) -> (share: i64)
    requires
        extent > 0,
        within(raw as int, origin as int, extent as int),
    ensures
        share == normalized(raw as int, origin as int, extent as int),
        0 <= share <= UNIT,
{
    proof {
        lemma_normalized_range(raw as int, origin as int, extent as int);
    }
    let d: i64 = raw as i64 - origin as i64;
    (d * UNIT) / (extent as i64)
}

/// The normal form of a raw point with respect to `bounds`, or nothing for
/// a point outside them.
pub fn normalize(raw_x: i32, raw_y: i32, bounds: &Bounds) -> (point: Option<(i64, i64)>)
    requires
        bounds.valid(),
    ensures
        match point {
            Some(p) => normalize_spec(raw_x as int, raw_y as int, *bounds) == Some(
                (p.0 as int, p.1 as int),
            ) && 0 <= p.0 <= UNIT && 0 <= p.1 <= UNIT,
            None => normalize_spec(raw_x as int, raw_y as int, *bounds).is_none(),
        },
{
    let dx: i64 = raw_x as i64 - bounds.x as i64;
    let dy: i64 = raw_y as i64 - bounds.y as i64;
    if dx < 0 || dx > bounds.width as i64 || dy < 0 || dy > bounds.height as i64 {
        return None;
    }
    Some(
        (
            normalize_axis(raw_x, bounds.x, bounds.width),
            normalize_axis(raw_y, bounds.y, bounds.height),
        ),
    )
}

/// The raw coordinate of a share of an extent, or nothing for a share
/// that is not between zero and one.
pub fn denormalize(share: i64, origin: i32, extent: u32) -> (raw: Option<i64>)
    ensures
        raw == if 0 <= share <= UNIT {
            Some(denormalized(share as int, origin as int, extent as int) as i64)
        } else {
            None
        },
        raw.is_some() ==> origin <= raw.unwrap() <= origin + extent,
{
    if share < 0 || share > UNIT {
        return None;
    }
    proof {
        assert(0 <= share * extent <= UNIT * extent) by (nonlinear_arith)
            requires
                0 <= share <= UNIT,
                0 <= extent,
        ;
        crate::fixed::lemma_quotient_bounds(share * extent + UNIT - 1, UNIT as int);
        crate::fixed::lemma_quotient_monotone(
            share * extent + UNIT - 1,
            UNIT * extent + UNIT - 1,
            UNIT as int,
        );
        crate::fixed::lemma_floor_quotient(UNIT * extent + UNIT - 1, UNIT as int, extent as int);
    }
    let product: i128 = (share as i128) * (extent as i128);
    let up: i128 = floor_div(product + (UNIT as i128) - 1, UNIT as i128);
    Some((origin as i128 + up) as i64)
}

/// What is being captured.
#[derive(Clone, Copy, Debug, PartialEq, Eq, Structural)]
pub enum TargetKind {
    Monitor,
    Window,
}

/// The target of a recording: a monitor or a window, with the rectangle of
/// the screen that it covered when the recording began.
#[derive(Clone, Copy, Debug)]
pub struct CaptureTarget {
    kind: TargetKind,
    bounds: Bounds,
}

impl CaptureTarget {
    /// The kind of target.
    pub closed spec fn kind_spec(&self) -> TargetKind {
        self.kind
    }

    /// The target's rectangle.
    pub closed spec fn bounds_spec(&self) -> Bounds {
        self.bounds
    }

    /// Well-formedness: the rectangle is not empty and its sides are even.
    pub open spec fn wf(&self) -> bool {
        &&& self.bounds_spec().valid()
        &&& self.bounds_spec().width % 2 == 0
        &&& self.bounds_spec().height % 2 == 0
    }

    /// A monitor of the given size; its rectangle starts at the origin.
    /// Odd sides lose a pixel; nothing where a side is then empty.
    pub fn monitor(width: u32, height: u32) -> (made: Option<CaptureTarget>)
        ensures
            made.is_some() == (width >= 2 && height >= 2),
            match made {
                Some(target) => {
                    &&& target.wf()
                    &&& target.kind_spec() == TargetKind::Monitor
                    &&& target.bounds_spec() == (Bounds {
                        x: 0,
                        y: 0,
                        width: even_floor(width as int) as u32,
                        height: even_floor(height as int) as u32,
                    })
                },
                None => true,
            },
    {
        Self::resolve(TargetKind::Monitor, 0, 0, width, height)
    }

    /// A window with the rectangle that it covers now. Odd sides lose a
    /// pixel; nothing where a side is then empty.
    pub fn window(x: i32, y: i32, width: u32, height: u32) -> (made: Option<CaptureTarget>)
        ensures
            made.is_some() == (width >= 2 && height >= 2),
            match made {
                Some(target) => {
                    &&& target.wf()
                    &&& target.kind_spec() == TargetKind::Window
                    &&& target.bounds_spec() == (Bounds {
                        x,
                        y,
                        width: even_floor(width as int) as u32,
                        height: even_floor(height as int) as u32,
                    })
                },
                None => true,
            },
    {
        Self::resolve(TargetKind::Window, x, y, width, height)
    }

    fn resolve(kind: TargetKind, x: i32, y: i32, width: u32, height: u32) -> (made: Option<
        CaptureTarget,
    >)
        ensures
            made.is_some() == (width >= 2 && height >= 2),
            match made {
                Some(target) => {
                    &&& target.wf()
                    &&& target.kind_spec() == kind
                    &&& target.bounds_spec() == (Bounds {
                        x,
                        y,
                        width: even_floor(width as int) as u32,
                        height: even_floor(height as int) as u32,
                    })
                },
                None => true,
            },
    {
        let even_width: u32 = even_dimension(width);
        let even_height: u32 = even_dimension(height);
        if even_width == 0 || even_height == 0 {
            None
        } else {
            Some(
                CaptureTarget {
                    kind,
                    bounds: Bounds { x, y, width: even_width, height: even_height },
                },
            )
        }
    }

    /// The kind of target.
    pub fn kind(&self) -> (k: TargetKind)
        ensures
            k == self.kind_spec(),
    {
        self.kind
    }

    /// The target's rectangle.
    pub fn bounds(&self) -> (b: Bounds)
        ensures
            b == self.bounds_spec(),
    {
        self.bounds
    }

    /// The normal form of a raw point with respect to the target, or
    /// nothing for a point outside it.
    pub fn normalize(&self, raw_x: i32, raw_y: i32) -> (point: Option<(i64, i64)>)
        requires
            self.wf(),
        ensures
            match point {
                Some(p) => normalize_spec(raw_x as int, raw_y as int, self.bounds_spec()) == Some(
                    (p.0 as int, p.1 as int),
                ) && 0 <= p.0 <= UNIT && 0 <= p.1 <= UNIT,
                None => normalize_spec(raw_x as int, raw_y as int, self.bounds_spec()).is_none(),
            },
    {
        normalize(raw_x, raw_y, &self.bounds)
    }
}

} // verus!
