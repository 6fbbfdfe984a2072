//! Decimal text for integers and fixed-point numbers, built piece by piece
//! onto a `String`: with a fixed number of fractional digits, rounded, or
//! in the shortest form.

use vstd::prelude::*;
use crate::fixed::UNIT;

verus! {

/// The one-character text of the decimal digit `d`.
pub open spec fn digit_text(d: int) -> Seq<char> {
    if d == 0 {
        "0"@
    } else if d == 1 {
        "1"@
    } else if d == 2 {
        "2"@
    } else if d == 3 {
        "3"@
    } else if d == 4 {
        "4"@
    } else if d == 5 {
        "5"@
    } else if d == 6 {
        "6"@
    } else if d == 7 {
        "7"@
    } else if d == 8 {
        "8"@
    } else {
        "9"@
    }
}

/// The decimal text of `n`, without leading zeros (`"0"` for zero).
pub open spec fn decimal_text(n: nat) -> Seq<char>
    decreases n,
{
    if n < 10 {
        digit_text(n as int)
    } else {
        decimal_text(n / 10) + digit_text((n % 10) as int)
    }
}

/// The `width` low-order decimal digits of `n`, zero-padded on the left.
pub open spec fn padded_text(n: nat, width: nat) -> Seq<char>
    decreases width,
{
    if width == 0 {
        Seq::<char>::empty()
    } else {
        padded_text(n / 10, (width - 1) as nat) + digit_text((n % 10) as int)
    }
}

/// The text of a signed integer: a minus sign where negative, then the
/// decimal text of the magnitude.
#[verifier::opaque]
pub open spec fn int_text(v: int) -> Seq<char> {
    if v < 0 {
        "-"@ + decimal_text((-v) as nat)
    } else {
        decimal_text(v as nat)
    }
}

/// Ten to the power `p`, for `p` up to six.
pub open spec fn pow10(p: nat) -> int {
    if p == 0 {
        1
    } else if p == 1 {
        10
    } else if p == 2 {
        100
    } else if p == 3 {
        1_000
    } else if p == 4 {
        10_000
    } else if p == 5 {
        100_000
    } else {
        1_000_000
    }
}

/// The fixed-point magnitude `m` in units of ten to the minus `places`,
/// rounded to the nearest; a magnitude half way between two goes to the
/// even one.
pub open spec fn rounded_units(m: int, places: nat) -> int {
    let d = pow10((6 - places) as nat);
    let q = m / d;
    let r = m % d;
    if 2 * r > d || (2 * r == d && q % 2 == 1) {
        q + 1
    } else {
        q
    }
}

/// The text of a magnitude with exactly `places` fractional digits.
pub open spec fn places_body(m: int, places: nat) -> Seq<char> {
    let u = rounded_units(m, places);
    decimal_text((u / pow10(places)) as nat) + "."@ + padded_text(
        (u % pow10(places)) as nat,
        places,
    )
}

/// The minus sign of a negative number.
pub open spec fn sign_text(negative: bool) -> Seq<char> {
    if negative {
        "-"@
    } else {
        Seq::<char>::empty()
    }
}

/// The text of the fixed-point number `v / UNIT` with exactly `places`
/// fractional digits, one to six: a minus sign where `v` is negative, the
/// integer part, a point, and the fraction rounded to the nearest.
#[verifier::opaque]
pub open spec fn places_text(v: int, places: nat) -> Seq<char> {
    sign_text(v < 0) + places_body(if v < 0 { -v } else { v }, places)
}

/// The `width` low-order digits of a fraction without the zeros at their
/// end; nothing for a fraction of zero.
pub open spec fn trimmed_fraction(f: nat, width: nat) -> Seq<char>
    decreases width,
{
    if width == 0 || f == 0 {
        Seq::<char>::empty()
    } else if f % 10 == 0 {
        trimmed_fraction(f / 10, (width - 1) as nat)
    } else {
        padded_text(f, width)
    }
}

/// The shortest text of the fixed-point number `v / UNIT`: a minus sign
/// where negative, the integer part, and, unless the fraction is zero, a
/// point and the fraction without zeros at its end.
#[verifier::opaque]
pub open spec fn plain_text(v: int) -> Seq<char> {
    let m = if v < 0 { -v } else { v };
    let whole = sign_text(v < 0) + decimal_text((m / (UNIT as int)) as nat);
    if m % (UNIT as int) == 0 {
        whole
    } else {
        whole + "."@ + trimmed_fraction((m % (UNIT as int)) as nat, 6)
    }
}

/// What each digit's text holds: one character, `'0'` to `'9'`.
pub proof fn lemma_digit_text(d: int)
    requires
        0 <= d < 10,
    ensures
        digit_text(d).len() == 1,
        digit_text(d)[0] as int == '0' as int + d,
{
    reveal_strlit("0");
    reveal_strlit("1");
    reveal_strlit("2");
    reveal_strlit("3");
    reveal_strlit("4");
    reveal_strlit("5");
    reveal_strlit("6");
    reveal_strlit("7");
    reveal_strlit("8");
    reveal_strlit("9");
}

/// Padded text has exactly the width asked for.
pub proof fn lemma_padded_len(n: nat, width: nat)
    ensures
        padded_text(n, width).len() == width,
    decreases width,
{
    if width > 0 {
        lemma_padded_len(n / 10, (width - 1) as nat);
        lemma_digit_text((n % 10) as int);
    }
}

fn digit_str(d: u64) -> (s: &'static str)
    requires
        d < 10,
    ensures
        s@ == digit_text(d as int),
{
    if d == 0 {
        "0"
    } else if d == 1 {
        "1"
    } else if d == 2 {
        "2"
    } else if d == 3 {
        "3"
    } else if d == 4 {
        "4"
    } else if d == 5 {
        "5"
    } else if d == 6 {
        "6"
    } else if d == 7 {
        "7"
    } else if d == 8 {
        "8"
    } else {
        "9"
    }
}

/// Appends the decimal text of `n`.
pub fn push_decimal(out: &mut String, n: u64)
    ensures
        final(out)@ == old(out)@ + decimal_text(n as nat),
    decreases n,
{
    if n >= 10 {
        push_decimal(out, n / 10);
    }
    out.append(digit_str(n % 10));
    proof {
        if n >= 10 {
            assert(out@ =~= old(out)@ + (decimal_text((n / 10) as nat) + digit_text(
                (n % 10) as int,
            )));
        }
    }
}

/// Appends the `width` low-order digits of `n`, zero-padded.
pub fn push_padded(out: &mut String, n: u64, width: u8)
    ensures
        final(out)@ == old(out)@ + padded_text(n as nat, width as nat),
    decreases width,
{
    if width > 0 {
        push_padded(out, n / 10, width - 1);
        out.append(digit_str(n % 10));
        proof {
            assert(out@ =~= old(out)@ + (padded_text((n / 10) as nat, (width - 1) as nat)
                + digit_text((n % 10) as int)));
        }
    } else {
        proof {
            assert(out@ =~= old(out)@ + Seq::<char>::empty());
        }
    }
}

/// The magnitude of `v`.
pub fn magnitude(v: i64) -> (m: u64)
    ensures
        m == if v < 0 { -(v as int) } else { v as int },
{
    if v >= 0 {
        v as u64
    } else {
        (-(v + 1)) as u64 + 1
    }
}

/// Appends the text of a signed integer.
pub fn push_int(out: &mut String, v: i64)
    ensures
        final(out)@ == old(out)@ + int_text(v as int),
{
    let m: u64 = magnitude(v);
    if v < 0 {
        out.append("-");
    }
    push_decimal(out, m);
    proof {
        reveal(int_text);
        if v < 0 {
            assert(out@ =~= old(out)@ + ("-"@ + decimal_text(m as nat)));
        }
    }
}

fn power_of_ten(p: u8) -> (d: u128)
    requires
        p <= 6,
    ensures
        d == pow10(p as nat),
        1 <= d <= 1_000_000,
{
    if p == 0 {
        1
    } else if p == 1 {
        10
    } else if p == 2 {
        100
    } else if p == 3 {
        1_000
    } else if p == 4 {
        10_000
    } else if p == 5 {
        100_000
    } else {
        1_000_000
    }
}

/// Appends a minus sign where `negative`, and the magnitude `m` with
/// `places` fractional digits.
pub fn push_magnitude(out: &mut String, negative: bool, m: u128, places: u8)
    requires
        1 <= places <= 6,
        m <= 0x1_0000_0000_0000_0000,
    ensures
        final(out)@ == old(out)@ + (sign_text(negative) + places_body(m as int, places as nat)),
{
    if negative {
        out.append("-");
    }
    let ghost start = out@;
    let d: u128 = power_of_ten(6 - places);
    let unit: u128 = power_of_ten(places);
    let q: u128 = m / d;
    let r: u128 = m % d;
    let u: u128 = if 2 * r > d || (2 * r == d && q % 2 == 1) {
        q + 1
    } else {
        q
    };
    proof {
        assert(unit >= 10);
        assert(u <= 0x1_0000_0000_0000_0001);
    }
    push_decimal(out, (u / unit) as u64);
    out.append(".");
    push_padded(out, (u % unit) as u64, places);
    proof {
        assert(out@ =~= start + places_body(m as int, places as nat));
        assert(out@ =~= old(out)@ + (sign_text(negative) + places_body(m as int, places as nat)));
    }
}

/// Appends the text of the fixed-point number `v / UNIT` with `places`
/// fractional digits.
pub fn push_places(out: &mut String, v: i64, places: u8)
    requires
        1 <= places <= 6,
    ensures
        final(out)@ == old(out)@ + places_text(v as int, places as nat),
{
    let m: u64 = magnitude(v);
    push_magnitude(out, v < 0, m as u128, places);
    proof {
        reveal(places_text);
    }
}

/// Appends the text of the difference `a - b` of two fixed-point numbers
/// with `places` fractional digits.
pub fn push_difference(out: &mut String, a: i64, b: i64, places: u8)
    requires
        1 <= places <= 6,
    ensures
        final(out)@ == old(out)@ + places_text(a - b, places as nat),
{
    let d: i128 = a as i128 - b as i128;
    let m: u128 = if d < 0 {
        (-d) as u128
    } else {
        d as u128
    };
    push_magnitude(out, d < 0, m, places);
    proof {
        reveal(places_text);
    }
}

fn push_trimmed(out: &mut String, f: u64, width: u8)
    ensures
        final(out)@ == old(out)@ + trimmed_fraction(f as nat, width as nat),
    decreases width,
{
    if width == 0 || f == 0 {
        proof {
            assert(out@ =~= old(out)@ + Seq::<char>::empty());
        }
    } else if f % 10 == 0 {
        push_trimmed(out, f / 10, width - 1);
    } else {
        push_padded(out, f, width);
    }
}

/// Appends the shortest text of the fixed-point number `v / UNIT`.
pub fn push_plain(out: &mut String, v: i64)
    ensures
        final(out)@ == old(out)@ + plain_text(v as int),
{
    let m: u64 = magnitude(v);
    if v < 0 {
        out.append("-");
    }
    push_decimal(out, m / 1_000_000);
    let ghost whole = out@;
    let fraction: u64 = m % 1_000_000;
    if fraction != 0 {
        out.append(".");
        push_trimmed(out, fraction, 6);
    }
    proof {
        reveal(plain_text);
        let head = sign_text(v < 0) + decimal_text((m / 1_000_000) as nat);
        assert(whole =~= old(out)@ + head);
        if fraction != 0 {
            assert(out@ =~= old(out)@ + (head + "."@ + trimmed_fraction(fraction as nat, 6)));
        }
    }
}

/// Whether two string slices hold the same text.
pub fn str_eq(a: &str, b: &str) -> (same: bool)
    ensures
        same == (a@ == b@),
{
    let left = String::from_str(a);
    let right = String::from_str(b);
    left == right
}

} // verus!
