//! The size of a video as the probing program reports it: a line of text
//! with width and height, separated by a comma.

use vstd::prelude::*;
use vstd::string::StringSliceAdditionalSpecFns;

verus! {

/// Why the report of a probe was refused.
#[derive(Clone, Copy, Debug, PartialEq, Eq, Structural)]
pub enum ProbeError {
    /// The report does not hold two fields.
    Unparseable,
    /// The first field is not a number that fits thirty-two bits.
    InvalidWidth,
    /// The second field is not a number that fits thirty-two bits.
    InvalidHeight,
}

impl ProbeError {
    /// The message for the caller.
    pub open spec fn message_spec(self) -> Seq<char> {
        match self {
            ProbeError::Unparseable => "Could not parse video dimensions"@,
            ProbeError::InvalidWidth => "Invalid width"@,
            ProbeError::InvalidHeight => "Invalid height"@,
        }
    }

    /// The message for the caller.
    pub fn message(&self) -> (text: String)
        ensures
            text@ == self.message_spec(),
    {
        match self {
            ProbeError::Unparseable => String::from_str("Could not parse video dimensions"),
            ProbeError::InvalidWidth => String::from_str("Invalid width"),
            ProbeError::InvalidHeight => String::from_str("Invalid height"),
        }
    }
}

/// Whether a byte is white space: a blank, or one of tab, line feed,
/// vertical tab, form feed and carriage return.
pub open spec fn is_space(b: u8) -> bool {
    b == 0x20 || (0x09 <= b <= 0x0d)
}

/// Whether a byte is a decimal digit.
pub open spec fn is_digit(b: u8) -> bool {
    0x30 <= b <= 0x39
}

/// The first index from `from` on that holds no white space; the length if
/// there is none.
pub open spec fn skip_spaces(s: Seq<u8>, from: int) -> int
    decreases s.len() - from,
{
    if from < 0 || from >= s.len() {
        s.len() as int
    } else if !is_space(s[from]) {
        from
    } else {
        skip_spaces(s, from + 1)
    }
}

/// The end of the text before the white space that ends at `to`: the
/// index after the last byte before `to` that is no white space, or zero.
pub open spec fn drop_spaces(s: Seq<u8>, to: int) -> int
    decreases to,
{
    if to <= 0 || to > s.len() {
        0
    } else if !is_space(s[to - 1]) {
        to
    } else {
        drop_spaces(s, to - 1)
    }
}

/// The text without the white space at its ends.
pub open spec fn trimmed(s: Seq<u8>) -> Seq<u8> {
    let from = skip_spaces(s, 0);
    let to = drop_spaces(s, s.len() as int);
    if from < to {
        s.subrange(from, to)
    } else {
        Seq::<u8>::empty()
    }
}

/// The index of the first comma from `from` on; the length if there is
/// none.
pub open spec fn field_end(s: Seq<u8>, from: int) -> int
    decreases s.len() - from,
{
    if from < 0 || from >= s.len() {
        s.len() as int
    } else if s[from] == 0x2c {
        from
    } else {
        field_end(s, from + 1)
    }
}

/// Whether every byte is a decimal digit.
pub open spec fn all_digits(s: Seq<u8>) -> bool {
    forall|i: int| 0 <= i < s.len() ==> is_digit(#[trigger] s[i])
}

/// The number that a run of decimal digits stands for.
pub open spec fn digits_value(s: Seq<u8>) -> int
    decreases s.len(),
{
    if s.len() == 0 {
        0
    } else {
        digits_value(s.drop_last()) * 10 + (s.last() - 0x30)
    }
}

/// Whether the text begins with a sign.
pub open spec fn signed(s: Seq<u8>) -> bool {
    s.len() > 0 && (s[0] == 0x2b || s[0] == 0x2d)
}

/// The text after its sign, if it has one.
pub open spec fn unsigned_part(s: Seq<u8>) -> Seq<u8> {
    if signed(s) {
        s.subrange(1, s.len() as int)
    } else {
        s
    }
}

/// The number that the text stands for: an optional sign and then one or
/// more decimal digits and nothing else, of a value that fits thirty-two
/// bits.
pub open spec fn parse_number(s: Seq<u8>) -> Option<int> {
    let body = unsigned_part(s);
    let value = if signed(s) && s[0] == 0x2d {
        -digits_value(body)
    } else {
        digits_value(body)
    };
    if body.len() > 0 && all_digits(body) && -0x8000_0000 <= value <= 0x7fff_ffff {
        Some(value)
    } else {
        None
    }
}

/// The size that a report stands for: the numbers in the first two of the
/// fields that commas part the trimmed text into.
pub open spec fn dimensions(text: Seq<u8>) -> Result<(int, int), ProbeError> {
    let t = trimmed(text);
    let first = field_end(t, 0);
    if first >= t.len() {
        Err(ProbeError::Unparseable)
    } else {
        let second = field_end(t, first + 1);
        match parse_number(t.subrange(0, first)) {
            None => Err(ProbeError::InvalidWidth),
            Some(width) => match parse_number(t.subrange(first + 1, second)) {
                None => Err(ProbeError::InvalidHeight),
                Some(height) => Ok((width, height)),
            },
        }
    }
}

/// A run of digits is worth at least as much as each run that it begins
/// with.
proof fn lemma_digits_grow(s: Seq<u8>, i: int, j: int)
    requires
        all_digits(s),
        0 <= i <= j <= s.len(),
    ensures
        0 <= digits_value(s.take(i)) <= digits_value(s.take(j)),
    decreases j,
{
    if j == 0 {
        assert(s.take(0).len() == 0);
    } else if i == j {
        lemma_digits_grow(s, 0, j - 1);
        assert(s.take(j).drop_last() =~= s.take(j - 1));
        assert(is_digit(s[j - 1]));
    } else {
        lemma_digits_grow(s, i, j - 1);
        assert(s.take(j).drop_last() =~= s.take(j - 1));
        assert(is_digit(s[j - 1]));
    }
}

fn parse_field(field: &[u8]) -> (number: Option<i32>)
    ensures
        match number {
            Some(n) => parse_number(field@) == Some(n as int),
            None => parse_number(field@).is_none(),
        },
{
    let n: usize = field.len();
    let has_sign: bool = n > 0 && (field[0] == 0x2b || field[0] == 0x2d);
    let negative: bool = has_sign && field[0] == 0x2d;
    let start: usize = if has_sign {
        1
    } else {
        0
    };
    let ghost body = unsigned_part(field@);
    proof {
        assert(body =~= field@.subrange(start as int, n as int));
    }
    if start == n {
        return None;
    }
    let mut acc: i64 = 0;
    let mut i: usize = start;
    while i < n
        invariant
            start <= i <= n,
            n == field@.len(),
            body == unsigned_part(field@),
            body == field@.subrange(start as int, n as int),
            all_digits(body.take(i - start)),
            acc == digits_value(body.take(i - start)),
            0 <= acc <= 0x8000_0000,
        decreases n - i,
    {
        let b: u8 = field[i];
        if b < 0x30 || b > 0x39 {
            proof {
                assert(body[i - start] == b);
            }
            return None;
        }
        proof {
            assert(body.take(i - start + 1).drop_last() =~= body.take(i - start));
            assert(body.take(i - start + 1).last() == b);
            assert forall|k: int| 0 <= k < i - start + 1 implies is_digit(
                #[trigger] body.take(i - start + 1)[k],
            ) by {
                if k < i - start {
                    assert(body.take(i - start)[k] == body[k]);
                }
            }
        }
        acc = acc * 10 + (b - 0x30) as i64;
        i += 1;
        if acc > 0x8000_0000 {
            proof {
                // whatever follows, the number is out of range
                if all_digits(body) {
                    lemma_digits_grow(body, i - start, body.len() as int);
                    assert(body.take(body.len() as int) =~= body);
                }
            }
            return None;
        }
    }
    proof {
        assert(body.take(n - start) =~= body);
    }
    if negative {
        Some((-acc) as i32)
    } else if acc > 0x7fff_ffff {
        None
    } else {
        Some(acc as i32)
    }
}

/// The size of a video as a probe reports it, or why the report was
/// refused.
pub fn parse_dimensions(report: &str) -> (size: Result<(i32, i32), ProbeError>)
    ensures
        match size {
            Ok(s) => dimensions(report.spec_bytes()) == Ok::<(int, int), ProbeError>(
                (s.0 as int, s.1 as int),
            ),
            Err(e) => dimensions(report.spec_bytes()) == Err::<(int, int), ProbeError>(e),
        },
{
    let bytes: &[u8] = report.as_bytes();
    let n: usize = bytes.len();
    let mut from: usize = 0;
    while from < n && is_space_byte(bytes[from])
        invariant
            from <= n,
            n == bytes@.len(),
            skip_spaces(bytes@, 0) == skip_spaces(bytes@, from as int),
        decreases n - from,
    {
        from += 1;
    }
    let mut to: usize = n;
    while to > 0 && is_space_byte(bytes[to - 1])
        invariant
            to <= n,
            n == bytes@.len(),
            drop_spaces(bytes@, n as int) == drop_spaces(bytes@, to as int),
        decreases to,
    {
        to -= 1;
    }
    let empty: &[u8] = slice_part(bytes, 0, 0);
    let text: &[u8] = if from < to {
        slice_part(bytes, from, to)
    } else {
        empty
    };
    proof {
        assert(text@ =~= trimmed(bytes@));
    }
    let len: usize = text.len();
    let first: usize = find_comma(text, 0);
    if first >= len {
        return Err(ProbeError::Unparseable);
    }
    let second: usize = find_comma(text, first + 1);
    let width: i32 = match parse_field(slice_part(text, 0, first)) {
        Some(w) => w,
        None => {
            return Err(ProbeError::InvalidWidth);
        },
    };
    match parse_field(slice_part(text, first + 1, second)) {
        Some(height) => Ok((width, height)),
        None => Err(ProbeError::InvalidHeight),
    }
}

fn is_space_byte(b: u8) -> (r: bool)
    ensures
        r == is_space(b),
{
    b == 0x20 || (0x09 <= b && b <= 0x0d)
}

fn find_comma(text: &[u8], from: usize) -> (at: usize)
    requires
        from <= text@.len(),
    ensures
        at == field_end(text@, from as int),
        from <= at <= text@.len(),
{
    let n: usize = text.len();
    let mut i: usize = from;
    while i < n && text[i] != 0x2c
        invariant
            from <= i <= n,
            n == text@.len(),
            field_end(text@, from as int) == field_end(text@, i as int),
        decreases n - i,
    {
        i += 1;
    }
    i
}

fn slice_part(src: &[u8], from: usize, to: usize) -> (part: &[u8])
    requires
        from <= to <= src@.len(),
    ensures
        part@ == src@.subrange(from as int, to as int),
{
    &src[from..to]
}

} // verus!
