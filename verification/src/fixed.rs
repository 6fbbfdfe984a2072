//! Fixed-point numbers: a value `v` stands for the real number `v / UNIT`.
//! Every quotient is a floor, so each result is an exact integer function of
//! its arguments.

use vstd::prelude::*;
use vstd::arithmetic::div_mod::lemma_fundamental_div_mod_converse;
use vstd::arithmetic::div_mod::lemma_fundamental_div_mod;

verus! {

/// The fixed-point denominator: one million steps to the unit.
pub const UNIT: i64 = 1_000_000;

/// `value` clamped into `[lo, hi]`, the upper bound winning where `lo > hi`.
pub open spec fn clamp_spec(value: int, lo: int, hi: int) -> int {
    if value < lo {
        if lo < hi {
            lo
        } else {
            hi
        }
    } else if value > hi {
        hi
    } else {
        value
    }
}

/// Clamps `value` into `[lo, hi]`.
pub fn clamp(value: i64, lo: i64, hi: i64) -> (r: i64)
    ensures
        r == clamp_spec(value as int, lo as int, hi as int),
{
    let raised: i64 = if value < lo {
        lo
    } else {
        value
    };
    if raised > hi {
        hi
    } else {
        raised
    }
}

/// The least integer not below `n / d`.
pub open spec fn ceil_div(n: int, d: int) -> int {
    (n + d - 1) / d
}

/// The point between `v1` and `v2` that lies `num / den` of the way from
/// the first to the second, rounded down.
pub open spec fn lerp_spec(v1: int, v2: int, num: int, den: int) -> int {
    v1 + ((v2 - v1) * num) / den
}

/// A quotient is the one integer `q` with `q * d <= x < (q + 1) * d`.
pub proof fn lemma_floor_quotient(x: int, d: int, q: int)
    requires
        d > 0,
        q * d <= x < q * d + d,
    ensures
        x / d == q,
{
    lemma_fundamental_div_mod_converse(x, d, q, x - q * d);
}

/// The quotient of a negated numerator, from quotient and remainder of the
/// numerator itself.
pub proof fn lemma_floor_of_negation(p: int, d: int)
    requires
        d > 0,
    ensures
        (-p) / d == if p % d == 0 {
            -(p / d)
        } else {
            -(p / d) - 1
        },
{
    let q = p / d;
    let r = p % d;
    lemma_fundamental_div_mod(p, d);
    assert(p == d * q + r);
    assert(d * q == q * d) by (nonlinear_arith);
    if r == 0 {
        assert((-q) * d == -(q * d)) by (nonlinear_arith);
        lemma_floor_quotient(-p, d, -q);
    } else {
        assert((-q - 1) * d == -(q * d) - d) by (nonlinear_arith);
        lemma_floor_quotient(-p, d, -q - 1);
    }
}

/// A floor quotient lies between zero and its numerator where the
/// denominator is at least one.
pub proof fn lemma_quotient_bounds(x: int, d: int)
    requires
        0 <= x,
        d > 0,
    ensures
        0 <= x / d <= x,
        0 <= x % d < d,
        x == d * (x / d) + x % d,
{
    lemma_fundamental_div_mod(x, d);
    let q = x / d;
    let r = x % d;
    assert(0 <= r < d);
    if q < 0 {
        assert(d * q <= -d) by (nonlinear_arith)
            requires
                q <= -1,
                d > 0,
        ;
    }
    if q > x {
        assert(d * q > x) by (nonlinear_arith)
            requires
                q > x,
                x >= 0,
                d >= 1,
        ;
    }
}

/// Quotients keep the order of their numerators.
pub proof fn lemma_quotient_monotone(x: int, y: int, d: int)
    requires
        x <= y,
        d > 0,
    ensures
        x / d <= y / d,
{
    vstd::arithmetic::div_mod::lemma_div_is_ordered(x, y, d);
}

/// The floor of `n / d` for a positive `d`.
pub fn floor_div(n: i128, d: i128) -> (q: i128)
    requires
        d > 0,
        n > i128::MIN,
    ensures
        q == n as int / d as int,
{
    if n >= 0 {
        n / d
    } else {
        let p: i128 = -n;
        let q: i128 = p / d;
        let r: i128 = p % d;
        proof {
            lemma_quotient_bounds(p as int, d as int);
            lemma_floor_of_negation(p as int, d as int);
        }
        if r == 0 {
            -q
        } else {
            -q - 1
        }
    }
}

/// Linear interpolation in integers: `v1 + floor((v2 - v1) * num / den)`.
pub fn lerp(v1: i64, v2: i64, num: u64, den: u64) -> (r: i64)
    requires
        num <= den,
        den > 0,
    ensures
        r == lerp_spec(v1 as int, v2 as int, num as int, den as int),
        v1 <= v2 ==> v1 <= r <= v2,
        v2 <= v1 ==> v2 <= r <= v1,
{
    let rising: bool = v2 >= v1;
    let gap: u128 = if rising {
        (v2 as i128 - v1 as i128) as u128
    } else {
        (v1 as i128 - v2 as i128) as u128
    };
    proof {
        assert(gap * num <= gap * den) by (nonlinear_arith)
            requires
                num <= den,
                gap >= 0,
        ;
        assert(gap * den <= 0xffff_ffff_ffff_ffff * 0xffff_ffff_ffff_ffff) by (nonlinear_arith)
            requires
                0 <= gap <= 0xffff_ffff_ffff_ffff,
                0 <= den <= 0xffff_ffff_ffff_ffff,
        ;
    }
    let product: u128 = gap * (num as u128);
    let q: u128 = product / (den as u128);
    let rem: u128 = product % (den as u128);
    proof {
        lemma_quotient_bounds(product as int, den as int);
        lemma_quotient_monotone(product as int, gap * den, den as int);
        assert((gap * den) / (den as int) == gap) by {
            assert(gap * den == gap as int * den as int + 0);
            lemma_fundamental_div_mod_converse(gap * den, den as int, gap as int, 0);
        }
        assert(q <= gap);
    }
    if rising {
        proof {
            assert((v2 - v1) * num == product as int);
        }
        (v1 as i128 + q as i128) as i64
    } else {
        proof {
            assert((v2 - v1) * num == -(product as int)) by (nonlinear_arith)
                requires
                    product as int == gap as int * num as int,
                    gap as int == v1 as int - v2 as int,
            ;
            lemma_floor_of_negation(product as int, den as int);
        }
        if rem == 0 {
            (v1 as i128 - q as i128) as i64
        } else {
            proof {
                // a nonzero remainder means the quotient fell short of the gap
                if q == gap {
                    assert(product as int == den as int * q as int + rem as int);
                    assert(den as int * gap as int == gap * den) by (nonlinear_arith);
                }
            }
            (v1 as i128 - q as i128 - 1) as i64
        }
    }
}

} // verus!
