//! The frame rate of a recording as the caller writes it: a decimal number
//! of frames a second, with or without an exponent, taken to the
//! millihertz.

use vstd::prelude::*;
use vstd::string::StringSliceAdditionalSpecFns;
use crate::pacer::{DEFAULT_MILLIHERTZ, MAX_MILLIHERTZ};
use crate::probe::{all_digits, digits_value, is_digit};

verus! {

/// The index of the first byte from `from` on that is one of `a` and `b`;
/// the length if there is none.
pub open spec fn index_of(s: Seq<u8>, a: u8, b: u8, from: int) -> int
    decreases s.len() - from,
{
    if from < 0 || from >= s.len() {
        s.len() as int
    } else if s[from] == a || s[from] == b {
        from
    } else {
        index_of(s, a, b, from + 1)
    }
}

/// The text after a plus sign at its start, if it has one.
pub open spec fn unsigned_text(s: Seq<u8>) -> Seq<u8> {
    if s.len() > 0 && s[0] == 0x2b {
        s.subrange(1, s.len() as int)
    } else {
        s
    }
}

/// The text before the letter `e`, small or capital; all of it where it
/// holds none.
pub open spec fn mantissa(s: Seq<u8>) -> Seq<u8> {
    s.subrange(0, index_of(s, 0x65, 0x45, 0))
}

/// Whether the text holds the letter `e`.
pub open spec fn has_exponent(s: Seq<u8>) -> bool {
    index_of(s, 0x65, 0x45, 0) < s.len()
}

/// The text after the first letter `e`.
pub open spec fn exponent_part(s: Seq<u8>) -> Seq<u8> {
    s.subrange(index_of(s, 0x65, 0x45, 0) + 1, s.len() as int)
}

/// The digits before the point.
pub open spec fn whole_part(s: Seq<u8>) -> Seq<u8> {
    s.subrange(0, index_of(s, 0x2e, 0x2e, 0))
}

/// The digits after the point; none where there is no point.
pub open spec fn fraction_part(s: Seq<u8>) -> Seq<u8> {
    if index_of(s, 0x2e, 0x2e, 0) < s.len() {
        s.subrange(index_of(s, 0x2e, 0x2e, 0) + 1, s.len() as int)
    } else {
        Seq::<u8>::empty()
    }
}

/// Whether the text is a decimal number: digits, with or without a point
/// among them, and at least one digit.
pub open spec fn is_decimal(s: Seq<u8>) -> bool {
    &&& all_digits(whole_part(s))
    &&& all_digits(fraction_part(s))
    &&& whole_part(s).len() + fraction_part(s).len() > 0
}

/// The number that an exponent stands for: a sign or none, and then one
/// or more digits and nothing else.
pub open spec fn exponent_value(s: Seq<u8>) -> Option<int> {
    let signed = s.len() > 0 && (s[0] == 0x2b || s[0] == 0x2d);
    let body = if signed {
        s.subrange(1, s.len() as int)
    } else {
        s
    };
    if body.len() == 0 || !all_digits(body) {
        None
    } else if signed && s[0] == 0x2d {
        Some(-digits_value(body))
    } else {
        Some(digits_value(body))
    }
}

/// Ten to the power `k`.
pub open spec fn ten_to(k: nat) -> int
    decreases k,
{
    if k == 0 {
        1
    } else {
        10 * ten_to((k - 1) as nat)
    }
}

/// The whole number that a run of digits stands for when the point
/// stands after the first `point` of them: digits beyond the point are
/// dropped, and digits that the run lacks before it count as zeros.
pub open spec fn shifted(digits: Seq<u8>, point: int) -> int {
    if point <= 0 {
        0
    } else if point >= digits.len() {
        digits_value(digits) * ten_to((point - digits.len()) as nat)
    } else {
        digits_value(digits.take(point))
    }
}

/// The rate in millihertz that a decimal number and an exponent stand
/// for: the number times ten to the exponent, times a thousand, rounded
/// down.
pub open spec fn millihertz_of(number: Seq<u8>, exponent: int) -> int {
    shifted(whole_part(number) + fraction_part(number), whole_part(number).len() + exponent + 3)
}

/// The rate in millihertz that a text stands for: after a plus sign or
/// none, a decimal number, and after it an exponent or none. The default
/// where the text is not of that form, or stands for a rate that is zero
/// or above the highest.
pub open spec fn rate_of_text(text: Seq<u8>) -> int {
    let s = unsigned_text(text);
    let exponent = if has_exponent(s) {
        exponent_value(exponent_part(s))
    } else {
        Some(0int)
    };
    match exponent {
        Some(e) => {
            let rate = millihertz_of(mantissa(s), e);
            if is_decimal(mantissa(s)) && 1 <= rate <= MAX_MILLIHERTZ {
                rate
            } else {
                DEFAULT_MILLIHERTZ as int
            }
        },
        None => DEFAULT_MILLIHERTZ as int,
    }
}

/// Powers of ten are at least one and grow with the exponent.
pub proof fn lemma_ten_to(j: nat, k: nat)
    requires
        j <= k,
    ensures
        1 <= ten_to(j) <= ten_to(k),
    decreases k,
{
    if k > 0 {
        if j < k {
            lemma_ten_to(j, (k - 1) as nat);
        } else {
            lemma_ten_to((j - 1) as nat, (k - 1) as nat);
        }
    }
}

/// Digits are worth nothing less than nothing.
pub proof fn lemma_digits_nonnegative(s: Seq<u8>)
    requires
        all_digits(s),
    ensures
        0 <= digits_value(s),
    decreases s.len(),
{
    if s.len() > 0 {
        assert(is_digit(s[s.len() - 1]));
        assert forall|k: int| 0 <= k < s.drop_last().len() implies is_digit(
            #[trigger] s.drop_last()[k],
        ) by {
            assert(s.drop_last()[k] == s[k]);
        }
        lemma_digits_nonnegative(s.drop_last());
    }
}

/// The value of a run of digits, or of as many of them as it takes to
/// exceed `cap`; nothing where a byte of the run is no digit.
fn digits_up_to(digits: &[u8], cap: u128) -> (value: Option<u128>)
    requires
        cap <= 1_000_000_000_000_000_000_000_000_000_000,
    ensures
        value.is_some() == all_digits(digits@),
        match value {
            Some(v) => v <= 10 * cap + 9 && if digits_value(digits@) <= cap {
                v == digits_value(digits@)
            } else {
                v > cap
            },
            None => true,
        },
{
    let n: usize = digits.len();
    let mut acc: u128 = 0;
    let mut over: bool = false;
    let mut i: usize = 0;
    while i < n
        invariant
            i <= n,
            n == digits@.len(),
            cap <= 1_000_000_000_000_000_000_000_000_000_000,
            all_digits(digits@.take(i as int)),
            !over ==> acc == digits_value(digits@.take(i as int)) && acc <= cap,
            over ==> acc > cap && digits_value(digits@.take(i as int)) > cap,
            acc <= 10 * cap + 9,
        decreases n - i,
    {
        let b: u8 = digits[i];
        if b < 0x30 || b > 0x39 {
            proof {
                assert(!is_digit(digits@[i as int]));
            }
            return None;
        }
        proof {
            assert(digits@.take(i as int + 1).drop_last() =~= digits@.take(i as int));
            assert(digits@.take(i as int + 1).last() == b);
            assert forall|k: int| 0 <= k < i + 1 implies is_digit(
                #[trigger] digits@.take(i as int + 1)[k],
            ) by {
                if k < i {
                    assert(digits@.take(i as int)[k] == digits@[k]);
                }
            }
        }
        if !over {
            acc = acc * 10 + (b - 0x30) as u128;
            if acc > cap {
                over = true;
            }
        }
        i += 1;
    }
    proof {
        assert(digits@.take(n as int) =~= digits@);
    }
    Some(acc)
}

fn find_either(text: &[u8], a: u8, b: u8) -> (at: usize)
    ensures
        at == index_of(text@, a, b, 0),
        at <= text@.len(),
{
    let n: usize = text.len();
    let mut i: usize = 0;
    while i < n && text[i] != a && text[i] != b
        invariant
            i <= n,
            n == text@.len(),
            index_of(text@, a, b, 0) == index_of(text@, a, b, i as int),
        decreases n - i,
    {
        i += 1;
    }
    i
}

fn part(src: &[u8], from: usize, to: usize) -> (piece: &[u8])
    requires
        from <= to <= src@.len(),
    ensures
        piece@ == src@.subrange(from as int, to as int),
{
    &src[from..to]
}

/// Whether `short` stands for the exponent `e`: it is `e` where that is
/// at most ten to the twentieth either way, which is more than any text
/// has digits, and else beyond that bound on the same side.
pub open spec fn stands_for(short: i128, e: int) -> bool {
    &&& -1_000_000_000_000_000_000_009 <= short <= 1_000_000_000_000_000_000_009
    &&& if -100_000_000_000_000_000_000 <= e <= 100_000_000_000_000_000_000 {
        short == e
    } else if e > 0 {
        short > 100_000_000_000_000_000_000
    } else {
        short < -100_000_000_000_000_000_000
    }
}

/// The exponent that a text stands for; an exponent beyond ten to the
/// twentieth, either way, is given as just that.
fn parse_exponent(text: &[u8]) -> (exponent: Option<i128>)
    ensures
        exponent.is_some() == exponent_value(text@).is_some(),
        match exponent {
            Some(e) => stands_for(e, exponent_value(text@).unwrap()),
            None => true,
        },
{
    let n: usize = text.len();
    let signed: bool = n > 0 && (text[0] == 0x2b || text[0] == 0x2d);
    let negative: bool = signed && text[0] == 0x2d;
    let start: usize = if signed {
        1
    } else {
        0
    };
    let body: &[u8] = part(text, start, n);
    proof {
        if !signed {
            assert(body@ =~= text@);
        }
    }
    if body.len() == 0 {
        return None;
    }
    match digits_up_to(body, 100_000_000_000_000_000_000) {
        Some(v) => {
            proof {
                lemma_digits_nonnegative(body@);
            }
            if negative {
                Some(-(v as i128))
            } else {
                Some(v as i128)
            }
        },
        None => None,
    }
}

/// The rate in millihertz that a run of digits stands for with the point
/// after the first `point` of them; a rate above the highest is given as
/// just that.
fn shift_digits(digits: &[u8], point: i128) -> (rate: u64)
    requires
        all_digits(digits@),
        -200_000_000_000_000_000_000 <= point <= 200_000_000_000_000_000_000,
    ensures
        if shifted(digits@, point as int) <= MAX_MILLIHERTZ {
            rate == shifted(digits@, point as int)
        } else {
            rate > MAX_MILLIHERTZ
        },
{
    let len: usize = digits.len();
    if point <= 0 {
        return 0;
    }
    if point < len as i128 {
        let head: &[u8] = part(digits, 0, point as usize);
        proof {
            assert(head@ =~= digits@.take(point as int));
            assert forall|k: int| 0 <= k < head@.len() implies is_digit(#[trigger] head@[k]) by {
                assert(head@[k] == digits@[k]);
            }
        }
        return match digits_up_to(head, 1_000_000_000) {
            Some(v) => v as u64,
            None => 0,
        };
    }
    let value: u64 = match digits_up_to(digits, 1_000_000_000) {
        Some(v) => v as u64,
        None => 0,
    };
    let zeros: i128 = point - len as i128;
    proof {
        lemma_digits_nonnegative(digits@);
        lemma_ten_to(0, zeros as nat);
        if digits_value(digits@) > 1_000_000_000 {
            assert(digits_value(digits@) * ten_to(zeros as nat) >= digits_value(digits@))
                by (nonlinear_arith)
                requires
                    digits_value(digits@) >= 0,
                    ten_to(zeros as nat) >= 1,
            ;
        }
    }
    if value > 1_000_000_000 {
        return value;
    }
    if value == 0 {
        proof {
            assert(digits_value(digits@) * ten_to(zeros as nat) == 0) by (nonlinear_arith)
                requires
                    digits_value(digits@) == 0,
            ;
        }
        return 0;
    }
    let mut rate: u64 = value;
    let mut done: i128 = 0;
    proof {
        assert(value * ten_to(0) == value) by (nonlinear_arith)
            requires
                ten_to(0) == 1,
        ;
    }
    while done < zeros && rate <= 1_000_000_000
        invariant
            0 <= done <= zeros,
            1 <= value <= 1_000_000_000,
            value == digits_value(digits@),
            rate == value * ten_to(done as nat),
            rate <= 10_000_000_000,
        decreases zeros - done,
    {
        proof {
            assert(value * ten_to((done + 1) as nat) == 10 * (value * ten_to(done as nat)))
                by (nonlinear_arith)
                requires
                    ten_to((done + 1) as nat) == 10 * ten_to(done as nat),
            ;
        }
        rate = rate * 10;
        done += 1;
    }
    proof {
        if done < zeros {
            // what is still to come makes the rate no smaller
            lemma_ten_to(done as nat, zeros as nat);
            assert(value * ten_to(zeros as nat) >= value * ten_to(done as nat))
                by (nonlinear_arith)
                requires
                    value >= 1,
                    ten_to(done as nat) <= ten_to(zeros as nat),
            ;
        }
    }
    rate
}

/// The rate that the digits of a decimal number and an exponent stand for
/// if it is one to the highest rate, and else zero.
fn rate_of_parts(whole: &[u8], fraction: &[u8], exponent: i128, Ghost(e): Ghost<int>) -> (rate:
    u64)
    requires
        all_digits(whole@),
        all_digits(fraction@),
        stands_for(exponent, e),
    ensures
        rate == if 1 <= shifted(whole@ + fraction@, whole@.len() + e + 3) <= MAX_MILLIHERTZ {
            shifted(whole@ + fraction@, whole@.len() + e + 3)
        } else {
            0
        },
{
    let mut digits: Vec<u8> = Vec::new();
    digits.extend_from_slice(whole);
    digits.extend_from_slice(fraction);
    proof {
        assert(digits@ =~= whole@ + fraction@);
        assert forall|k: int| 0 <= k < digits@.len() implies is_digit(#[trigger] digits@[k]) by {
            if k < whole@.len() {
                assert(digits@[k] == whole@[k]);
            } else {
                assert(digits@[k] == fraction@[k - whole@.len()]);
            }
        }
        lemma_digits_nonnegative(digits@);
    }
    let whole_len: usize = whole.len();
    let fraction_len: usize = fraction.len();
    if exponent > 100_000_000_000_000_000_000 {
        // more zeros follow the digits than any rate has: the rate is nothing
        // or beyond every bound
        proof {
            assert(digits@.len() == whole_len + fraction_len);
            let zeros = (whole@.len() + e + 3 - digits@.len()) as nat;
            lemma_ten_rises(zeros);
            if digits_value(digits@) >= 1 {
                assert(digits_value(digits@) * ten_to(zeros) >= ten_to(zeros)) by (nonlinear_arith)
                    requires
                        digits_value(digits@) >= 1,
                        ten_to(zeros) >= 1,
                ;
            } else {
                assert(digits_value(digits@) * ten_to(zeros) == 0) by (nonlinear_arith)
                    requires
                        digits_value(digits@) == 0,
                ;
            }
        }
        return 0;
    }
    if exponent < -100_000_000_000_000_000_000 {
        return 0;
    }
    let point: i128 = whole_len as i128 + exponent + 3;
    let rate: u64 = shift_digits(digits.as_slice(), point);
    if rate < 1 || rate > 1_000_000_000 {
        0
    } else {
        rate
    }
}

/// The rate in millihertz that a text stands for.
pub fn parse_rate(text: &str) -> (millihertz: u32)
    ensures
        millihertz == rate_of_text(text.spec_bytes()),
        1 <= millihertz <= MAX_MILLIHERTZ,
{
    let bytes: &[u8] = text.as_bytes();
    let n: usize = bytes.len();
    let start: usize = if n > 0 && bytes[0] == 0x2b {
        1
    } else {
        0
    };
    let s: &[u8] = part(bytes, start, n);
    proof {
        assert(s@ =~= unsigned_text(bytes@));
    }
    let len: usize = s.len();
    let mark: usize = find_either(s, 0x65, 0x45);
    let number: &[u8] = part(s, 0, mark);
    let exponent: i128 = if mark < len {
        match parse_exponent(part(s, mark + 1, len)) {
            Some(e) => e,
            None => {
                return DEFAULT_MILLIHERTZ;
            },
        }
    } else {
        0
    };
    let ghost e: int = if mark < len {
        exponent_value(exponent_part(s@)).unwrap()
    } else {
        0
    };
    let size: usize = number.len();
    let dot: usize = find_either(number, 0x2e, 0x2e);
    let whole: &[u8] = part(number, 0, dot);
    let empty: &[u8] = part(number, 0, 0);
    let fraction: &[u8] = if dot < size {
        part(number, dot + 1, size)
    } else {
        empty
    };
    proof {
        assert(fraction@ =~= fraction_part(number@));
    }
    if whole.len() + fraction.len() == 0 || digits_up_to(whole, 0).is_none() || digits_up_to(
        fraction,
        0,
    ).is_none() {
        return DEFAULT_MILLIHERTZ;
    }
    let rate: u64 = rate_of_parts(whole, fraction, exponent, Ghost(e));
    if rate == 0 {
        DEFAULT_MILLIHERTZ
    } else {
        rate as u32
    }
}

/// Ten to a power of ten or more is beyond the highest rate.
proof fn lemma_ten_rises(k: nat)
    requires
        k >= 10,
    ensures
        ten_to(k) > 1_000_000_000,
    decreases k,
{
    if k == 10 {
        reveal_with_fuel(ten_to, 11);
    } else {
        lemma_ten_rises((k - 1) as nat);
    }
}

} // verus!
