//! Validation of one framed device line.
//!
//! The device protocol is `<TYPE><SPACE><FLOAT><CR>` (the line feed was
//! already removed by the framer), with `TYPE` one of `P`, `I`, `U`.  A line
//! either is blank (a no-op), or yields a measurement kind together with the
//! numeric text of its value, or falls into exactly one of six error classes.
//! The numeric text is checked against the decimal-literal grammar that the
//! standard library documents for parsing 64-bit floating-point numbers, so
//! a value this module accepts is guaranteed to convert.

use vstd::prelude::*;

use crate::measurement::Measurement;

verus! {

/// Carriage return (`\r`).
pub const CARRIAGE_RETURN: u8 = 13;

/// Space (` `), the delimiter between type byte and value.
pub const SPACE: u8 = 32;

pub const PLUS: u8 = 43;

pub const MINUS: u8 = 45;

pub const DOT: u8 = 46;

pub const UPPER_E: u8 = 69;

pub const LOWER_E: u8 = 101;

pub const BYTE_P: u8 = 80;

pub const BYTE_I: u8 = 73;

pub const BYTE_U: u8 = 85;

/// Why a line was rejected.  Each class is reported and the stream then
/// continues; none of them interrupts framing.
#[derive(PartialEq, Eq, Structural, Clone, Copy, Debug)]
pub enum ParseErrorKind {
    /// A byte above 127 appeared somewhere in the line.
    NonAscii,
    /// Fewer than four bytes (and not blank).
    TooShort,
    /// The first byte is none of `P`, `I`, `U`.
    UnknownMeasurement,
    /// The second byte is not a space.
    MissingDelimiter,
    /// The last byte is not a carriage return.
    MissingTerminator,
    /// The value text is not a valid decimal number.
    InvalidNumber,
}

impl ParseErrorKind {
    /// Log text for this error class.
    pub fn message(&self) -> &'static str {
        match self {
            ParseErrorKind::NonAscii => "Non ascii char",
            ParseErrorKind::TooShort => "Line too short",
            ParseErrorKind::UnknownMeasurement => "Wrong first char",
            ParseErrorKind::MissingDelimiter => "No space",
            ParseErrorKind::MissingTerminator => "No CR",
            ParseErrorKind::InvalidNumber => "Not a number",
        }
    }
}

pub open spec fn is_digit(b: u8) -> bool {
    48 <= b <= 57
}

pub open spec fn is_sign(b: u8) -> bool {
    b == PLUS || b == MINUS
}

pub open spec fn is_exp_marker(b: u8) -> bool {
    b == LOWER_E || b == UPPER_E
}

/// ASCII lowercasing of one byte.
pub open spec fn lower(b: u8) -> u8 {
    if 65 <= b <= 90 {
        (b + 32) as u8
    } else {
        b
    }
}

/// Every byte of `s[lo..hi]` is a decimal digit.
pub open spec fn all_digits(s: Seq<u8>, lo: int, hi: int) -> bool {
    forall|i: int| lo <= i < hi ==> is_digit(#[trigger] s[i])
}

/// `s[lo..hi]` reads `inf`, case-insensitively.
pub open spec fn is_inf_kw(s: Seq<u8>, lo: int, hi: int) -> bool {
    &&& hi - lo == 3
    &&& lower(s[lo]) == 105
    &&& lower(s[lo + 1]) == 110
    &&& lower(s[lo + 2]) == 102
}

/// `s[lo..hi]` reads `infinity`, case-insensitively.
pub open spec fn is_infinity_kw(s: Seq<u8>, lo: int, hi: int) -> bool {
    &&& hi - lo == 8
    &&& lower(s[lo]) == 105
    &&& lower(s[lo + 1]) == 110
    &&& lower(s[lo + 2]) == 102
    &&& lower(s[lo + 3]) == 105
    &&& lower(s[lo + 4]) == 110
    &&& lower(s[lo + 5]) == 105
    &&& lower(s[lo + 6]) == 116
    &&& lower(s[lo + 7]) == 121
}

/// `s[lo..hi]` reads `nan`, case-insensitively.
pub open spec fn is_nan_kw(s: Seq<u8>, lo: int, hi: int) -> bool {
    &&& hi - lo == 3
    &&& lower(s[lo]) == 110
    &&& lower(s[lo + 1]) == 97
    &&& lower(s[lo + 2]) == 110
}

/// `s[lo..hi]` is a mantissa: digits, or digits around exactly one dot with
/// at least one digit present.
pub open spec fn is_mantissa(s: Seq<u8>, lo: int, hi: int) -> bool {
    ||| (lo < hi && all_digits(s, lo, hi))
    ||| (hi - lo > 1 && exists|i: int|
        lo <= i < hi && #[trigger] s[i] == DOT && all_digits(s, lo, i) && all_digits(
            s,
            i + 1,
            hi,
        ))
}

/// `s[lo..hi]` is an exponent body: an optional sign, then one or more digits.
pub open spec fn is_exp_tail(s: Seq<u8>, lo: int, hi: int) -> bool {
    let d = if lo < hi && is_sign(s[lo]) {
        lo + 1
    } else {
        lo
    };
    d < hi && all_digits(s, d, hi)
}

/// `s[lo..hi]` is a mantissa, optionally followed by an exponent marker and
/// an exponent body.
pub open spec fn is_number(s: Seq<u8>, lo: int, hi: int) -> bool {
    ||| is_mantissa(s, lo, hi)
    ||| exists|i: int|
        lo <= i < hi && is_exp_marker(#[trigger] s[i]) && is_mantissa(s, lo, i) && is_exp_tail(
            s,
            i + 1,
            hi,
        )
}

/// `s[lo..hi]` is a decimal floating-point literal: an optional sign, then
/// one of the keywords `inf`, `infinity`, `nan` (case-insensitive) or a
/// number.  This is the documented input grammar of the standard library's
/// string-to-float conversion, so exactly these value texts convert.
pub open spec fn is_float_text(s: Seq<u8>, lo: int, hi: int) -> bool {
    let b = if lo < hi && is_sign(s[lo]) {
        lo + 1
    } else {
        lo
    };
    ||| is_inf_kw(s, b, hi)
    ||| is_infinity_kw(s, b, hi)
    ||| is_nan_kw(s, b, hi)
    ||| is_number(s, b, hi)
}

/// A byte that is neither a digit nor a dot rules a whole range out as a
/// mantissa.
proof fn lemma_not_mantissa(s: Seq<u8>, lo: int, hi: int, j: int)
    requires
        lo <= j < hi,
        !is_digit(s[j]),
        s[j] != DOT,
    ensures
        !is_mantissa(s, lo, hi),
{
    assert(!all_digits(s, lo, hi));
    assert forall|i: int|
        lo <= i < hi && #[trigger] s[i] == DOT implies !(all_digits(s, lo, i) && all_digits(
        s,
        i + 1,
        hi,
    )) by {
        if j < i {
            assert(!all_digits(s, lo, i));
        } else {
            assert(i < j);
            assert(!all_digits(s, i + 1, hi));
        }
    }
}

fn to_lower_byte(b: u8) -> (r: u8)
    ensures
        r == lower(b),
{
    if 65 <= b && b <= 90 {
        b + 32
    } else {
        b
    }
}

fn check_all_digits(s: &[u8], lo: usize, hi: usize) -> (r: bool)
    requires
        lo <= hi <= s@.len(),
    ensures
        r == all_digits(s@, lo as int, hi as int),
{
    let mut i: usize = lo;
    while i < hi
        invariant
            lo <= i <= hi <= s@.len(),
            all_digits(s@, lo as int, i as int),
        decreases hi - i,
    {
        let b = s[i];
        if !(48 <= b && b <= 57) {
            assert(!is_digit(s@[i as int]));
            return false;
        }
        i = i + 1;
    }
    true
}

/// First index in `[lo, hi)` holding `a` or `b`, if any.
fn find_byte2(s: &[u8], lo: usize, hi: usize, a: u8, b: u8) -> (r: Option<usize>)
    requires
        lo <= hi <= s@.len(),
    ensures
        match r {
            Some(j) => lo <= j < hi && (s@[j as int] == a || s@[j as int] == b) && forall|k: int|
                lo <= k < j ==> #[trigger] s@[k] != a && s@[k] != b,
            None => forall|k: int| lo <= k < hi ==> #[trigger] s@[k] != a && s@[k] != b,
        },
{
    let mut i: usize = lo;
    while i < hi
        invariant
            lo <= i <= hi <= s@.len(),
            forall|k: int| lo <= k < i ==> #[trigger] s@[k] != a && s@[k] != b,
        decreases hi - i,
    {
        let c = s[i];
        if c == a || c == b {
            return Some(i);
        }
        i = i + 1;
    }
    None
}

fn check_mantissa(s: &[u8], lo: usize, hi: usize) -> (r: bool)
    requires
        lo <= hi <= s@.len(),
    ensures
        r == is_mantissa(s@, lo as int, hi as int),
{
    match find_byte2(s, lo, hi, DOT, DOT) {
        None => {
            let r = lo < hi && check_all_digits(s, lo, hi);
            proof {
                if !r {
                    assert forall|i: int|
                        lo <= i < hi implies #[trigger] s@[i] != DOT by {}
                }
            }
            r
        },
        Some(k) => {
            let digits_ok = check_all_digits(s, lo, k) && check_all_digits(s, k + 1, hi);
            let r = hi - lo > 1 && digits_ok;
            proof {
                if r {
                    assert(s@[k as int] == DOT && all_digits(s@, lo as int, k as int)
                        && all_digits(s@, k + 1, hi as int));
                    assert(is_mantissa(s@, lo as int, hi as int));
                } else {
                    assert(!all_digits(s@, lo as int, hi as int));
                    assert forall|i: int|
                        lo <= i < hi && #[trigger] s@[i] == DOT implies !(hi - lo > 1
                        && all_digits(s@, lo as int, i) && all_digits(s@, i + 1, hi as int)) by {
                        if i > k {
                            assert(s@[k as int] == DOT);
                            assert(!all_digits(s@, lo as int, i));
                        }
                    }
                    assert(!is_mantissa(s@, lo as int, hi as int));
                }
            }
            r
        },
    }
}

fn check_exp_tail(s: &[u8], lo: usize, hi: usize) -> (r: bool)
    requires
        lo <= hi <= s@.len(),
    ensures
        r == is_exp_tail(s@, lo as int, hi as int),
{
    let d: usize = if lo < hi && (s[lo] == PLUS || s[lo] == MINUS) {
        lo + 1
    } else {
        lo
    };
    d < hi && check_all_digits(s, d, hi)
}

fn check_number(s: &[u8], lo: usize, hi: usize) -> (r: bool)
    requires
        lo <= hi <= s@.len(),
    ensures
        r == is_number(s@, lo as int, hi as int),
{
    match find_byte2(s, lo, hi, LOWER_E, UPPER_E) {
        None => {
            let r = check_mantissa(s, lo, hi);
            proof {
                assert forall|i: int|
                    lo <= i < hi implies !is_exp_marker(#[trigger] s@[i]) by {}
            }
            r
        },
        Some(j) => {
            let m = check_mantissa(s, lo, j);
            let e = check_exp_tail(s, j + 1, hi);
            proof {
                if m && e {
                    assert(is_exp_marker(s@[j as int]));
                    assert(is_number(s@, lo as int, hi as int));
                } else {
                    lemma_not_mantissa(s@, lo as int, hi as int, j as int);
                    assert forall|i: int|
                        lo <= i < hi && is_exp_marker(#[trigger] s@[i]) implies !(is_mantissa(
                        s@,
                        lo as int,
                        i,
                    ) && is_exp_tail(s@, i + 1, hi as int)) by {
                        if i > j {
                            lemma_not_mantissa(s@, lo as int, i, j as int);
                        }
                    }
                }
            }
            m && e
        },
    }
}

/// Whether `s[lo..hi]` is a decimal floating-point literal.
pub fn is_float_bytes(s: &[u8], lo: usize, hi: usize) -> (r: bool)
    requires
        lo <= hi <= s@.len(),
    ensures
        r == is_float_text(s@, lo as int, hi as int),
{
    let b: usize = if lo < hi && (s[lo] == PLUS || s[lo] == MINUS) {
        lo + 1
    } else {
        lo
    };
    if hi - b == 3 {
        let c0 = to_lower_byte(s[b]);
        let c1 = to_lower_byte(s[b + 1]);
        let c2 = to_lower_byte(s[b + 2]);
        if c0 == 105 && c1 == 110 && c2 == 102 {
            return true;
        }
        if c0 == 110 && c1 == 97 && c2 == 110 {
            return true;
        }
    }
    if hi - b == 8 {
        if to_lower_byte(s[b]) == 105 && to_lower_byte(s[b + 1]) == 110 && to_lower_byte(
            s[b + 2],
        ) == 102 && to_lower_byte(s[b + 3]) == 105 && to_lower_byte(s[b + 4]) == 110
            && to_lower_byte(s[b + 5]) == 105 && to_lower_byte(s[b + 6]) == 116 && to_lower_byte(
            s[b + 7],
        ) == 121 {
            return true;
        }
    }
    check_number(s, b, hi)
}

/// A blank line: empty, or a single carriage return.  Produced by the `\r\n`
/// terminator pair; a no-op, not an error.
pub open spec fn line_is_blank(s: Seq<u8>) -> bool {
    s.len() == 0 || (s.len() == 1 && s[0] == CARRIAGE_RETURN)
}

/// Every byte of the line is 7-bit ASCII.
pub open spec fn all_ascii(s: Seq<u8>) -> bool {
    forall|i: int| 0 <= i < s.len() ==> #[trigger] s[i] <= 127
}

/// The measurement kind selected by a type byte.
pub open spec fn spec_kind_of(b: u8) -> Option<Measurement> {
    if b == BYTE_P {
        Some(Measurement::P)
    } else if b == BYTE_I {
        Some(Measurement::I)
    } else if b == BYTE_U {
        Some(Measurement::U)
    } else {
        None
    }
}

/// What parsing a line must yield: a blank no-op, a (kind, value text)
/// sample, or the first failing rule's error class.  The rules apply in
/// order: blank, ASCII, minimum length, type byte, delimiter, terminator,
/// number grammar.
pub open spec fn spec_parse_line(s: Seq<u8>) -> Result<
    Option<(Measurement, Seq<u8>)>,
    ParseErrorKind,
> {
    if line_is_blank(s) {
        Ok(None)
    } else if !all_ascii(s) {
        Err(ParseErrorKind::NonAscii)
    } else if s.len() < 4 {
        Err(ParseErrorKind::TooShort)
    } else if spec_kind_of(s[0]) is None {
        Err(ParseErrorKind::UnknownMeasurement)
    } else if s[1] != SPACE {
        Err(ParseErrorKind::MissingDelimiter)
    } else if s[s.len() - 1] != CARRIAGE_RETURN {
        Err(ParseErrorKind::MissingTerminator)
    } else if !is_float_text(s, 2, s.len() - 1) {
        Err(ParseErrorKind::InvalidNumber)
    } else {
        Ok(Some((spec_kind_of(s[0]).unwrap(), s.subrange(2, s.len() - 1))))
    }
}

/// The view of an executable parse outcome.
pub open spec fn parse_outcome_view(r: Result<Option<(Measurement, Vec<u8>)>, ParseErrorKind>)
    -> Result<Option<(Measurement, Seq<u8>)>, ParseErrorKind> {
    match r {
        Ok(None) => Ok(None),
        Ok(Some((m, v))) => Ok(Some((m, v@))),
        Err(e) => Err(e),
    }
}

/// Validate one framed line.  `Ok(None)` for a blank line, `Ok(Some((kind,
/// value text)))` for a well-formed sample line, and otherwise the first
/// error class of `spec_parse_line`'s rule order.
pub fn parse_line(line: &[u8]) -> (r: Result<Option<(Measurement, Vec<u8>)>, ParseErrorKind>)
    ensures
        parse_outcome_view(r) == spec_parse_line(line@),
{
    let n = line.len();
    if n == 0 {
        return Ok(None);
    }
    if n == 1 && line[0] == CARRIAGE_RETURN {
        return Ok(None);
    }
    let mut i: usize = 0;
    while i < n
        invariant
            n == line@.len(),
            i <= n,
            forall|k: int| 0 <= k < i ==> #[trigger] line@[k] <= 127,
        decreases n - i,
    {
        if line[i] > 127 {
            assert(!all_ascii(line@));
            return Err(ParseErrorKind::NonAscii);
        }
        i = i + 1;
    }
    if n < 4 {
        return Err(ParseErrorKind::TooShort);
    }
    let kind = match line[0] {
        80 => Measurement::P,
        73 => Measurement::I,
        85 => Measurement::U,
        _ => {
            return Err(ParseErrorKind::UnknownMeasurement);
        },
    };
    if line[1] != SPACE {
        return Err(ParseErrorKind::MissingDelimiter);
    }
    if line[n - 1] != CARRIAGE_RETURN {
        return Err(ParseErrorKind::MissingTerminator);
    }
    if !is_float_bytes(line, 2, n - 1) {
        return Err(ParseErrorKind::InvalidNumber);
    }
    let mut value: Vec<u8> = Vec::new();
    let mut j: usize = 2;
    while j < n - 1
        invariant
            n == line@.len(),
            4 <= n,
            2 <= j <= n - 1,
            value@ == line@.subrange(2, j as int),
        decreases n - j,
    {
        value.push(line[j]);
        proof {
            assert(line@.subrange(2, j + 1) =~= line@.subrange(2, j as int).push(line@[j as int]));
        }
        j = j + 1;
    }
    Ok(Some((kind, value)))
}

} // verus!
