//! The mathematical model of the two ISBN forms: symbol classes, digit
//! values, weighted checksums, validity, the outcome of each parser, and the
//! conversion between the forms. Everything here is specification; the
//! executable code in the sibling modules is proved against it.

use vstd::prelude::*;
use crate::ParseError;
use crate::normalize::stripped;

verus! {

/// An ASCII decimal digit.
pub open spec fn is_decimal(c: char) -> bool {
    ||| c == '0'
    ||| c == '1'
    ||| c == '2'
    ||| c == '3'
    ||| c == '4'
    ||| c == '5'
    ||| c == '6'
    ||| c == '7'
    ||| c == '8'
    ||| c == '9'
}

/// A character allowed in the last ISBN-10 position: a digit, or the letter
/// `X` (either case) standing for the value ten.
pub open spec fn is_check_symbol_char(c: char) -> bool {
    is_decimal(c) || c == 'X' || c == 'x'
}

/// The numeric value of an ISBN symbol: 0–9 for digits, 10 for `X`; other
/// characters carry no value and get -1.
pub open spec fn char_val(c: char) -> int {
    if c == '0' {
        0
    } else if c == '1' {
        1
    } else if c == '2' {
        2
    } else if c == '3' {
        3
    } else if c == '4' {
        4
    } else if c == '5' {
        5
    } else if c == '6' {
        6
    } else if c == '7' {
        7
    } else if c == '8' {
        8
    } else if c == '9' {
        9
    } else if c == 'X' || c == 'x' {
        10
    } else {
        -1
    }
}

/// The values of a whole symbol string.
pub open spec fn char_vals(t: Seq<char>) -> Seq<int> {
    Seq::new(t.len(), |i: int| char_val(t[i]))
}

/// The canonical character for a symbol value: `'0'`–`'9'`, and `'X'` for ten.
pub open spec fn char_of_val(v: int) -> char {
    if v == 0 {
        '0'
    } else if v == 1 {
        '1'
    } else if v == 2 {
        '2'
    } else if v == 3 {
        '3'
    } else if v == 4 {
        '4'
    } else if v == 5 {
        '5'
    } else if v == 6 {
        '6'
    } else if v == 7 {
        '7'
    } else if v == 8 {
        '8'
    } else if v == 9 {
        '9'
    } else {
        'X'
    }
}

/// The compact (separator-free) rendering of a value string.
pub open spec fn display_chars(v: Seq<int>) -> Seq<char> {
    Seq::new(v.len(), |i: int| char_of_val(v[i]))
}

/// ISBN-10 weights: 10 down to 1 across the ten positions.
pub open spec fn weight10(i: int) -> int {
    10 - i
}

/// ISBN-13 weights: 1 and 3 alternating from the first position.
pub open spec fn weight13(i: int) -> int {
    if i % 2 == 0 {
        1
    } else {
        3
    }
}

/// The mod-11 weighted sum over the first `n` positions: the value at index
/// `i` counts with weight `10 - i`.
pub open spec fn sum10_upto(v: Seq<int>, n: int) -> int
    decreases n,
{
    if n <= 0 {
        0
    } else {
        sum10_upto(v, n - 1) + v[n - 1] * weight10(n - 1)
    }
}

/// The mod-10 weighted sum over the first `n` positions: weights alternate
/// 1, 3 from index 0.
pub open spec fn sum13_upto(v: Seq<int>, n: int) -> int
    decreases n,
{
    if n <= 0 {
        0
    } else {
        sum13_upto(v, n - 1) + v[n - 1] * weight13(n - 1)
    }
}

/// The ISBN-10 checksum: digits weighted 10 down to 2, check symbol weighted 1.
pub open spec fn sum10(v: Seq<int>) -> int {
    sum10_upto(v, 10)
}

/// The ISBN-13 checksum: all thirteen digits with alternating weights 1, 3.
pub open spec fn sum13(v: Seq<int>) -> int {
    sum13_upto(v, 13)
}

/// A valid ISBN-10 value string: nine digits, a check value of at most ten,
/// and a weighted sum divisible by 11.
pub open spec fn valid10(v: Seq<int>) -> bool {
    &&& v.len() == 10
    &&& forall|i: int| 0 <= i < 9 ==> 0 <= #[trigger] v[i] < 10
    &&& 0 <= v[9] <= 10
    &&& sum10(v) % 11 == 0
}

/// The Bookland prefix: the first three digits are 978 or 979.
pub open spec fn bookland_prefix(v: Seq<int>) -> bool {
    v[0] == 9 && v[1] == 7 && (v[2] == 8 || v[2] == 9)
}

/// A valid ISBN-13 value string: thirteen digits beginning with a Bookland
/// prefix, with an alternating-weight sum divisible by 10.
pub open spec fn valid13(v: Seq<int>) -> bool {
    &&& v.len() == 13
    &&& forall|i: int| 0 <= i < 13 ==> 0 <= #[trigger] v[i] < 10
    &&& bookland_prefix(v)
    &&& sum13(v) % 10 == 0
}

/// A stripped string shaped like an ISBN-10: nine digits then a check symbol.
pub open spec fn chars10_ok(t: Seq<char>) -> bool {
    &&& t.len() == 10
    &&& forall|i: int| 0 <= i < 9 ==> is_decimal(#[trigger] t[i])
    &&& is_check_symbol_char(t[9])
}

/// A stripped string shaped like an ISBN-13: thirteen digits.
pub open spec fn chars13_ok(t: Seq<char>) -> bool {
    &&& t.len() == 13
    &&& forall|i: int| 0 <= i < 13 ==> is_decimal(#[trigger] t[i])
}

/// What parsing a candidate as an ISBN-10 yields: the ten symbol values, or
/// the first error in the order length, character, checksum.
pub open spec fn spec_parse10(s: Seq<char>) -> Result<Seq<int>, ParseError> {
    let t = stripped(s);
    if t.len() != 10 {
        Err(ParseError::LengthError)
    } else if !chars10_ok(t) {
        Err(ParseError::CharacterError)
    } else if sum10(char_vals(t)) % 11 != 0 {
        Err(ParseError::ChecksumError)
    } else {
        Ok(char_vals(t))
    }
}

/// What parsing a candidate as an ISBN-13 yields: the thirteen digit values,
/// or the first error in the order length, character, prefix, checksum.
pub open spec fn spec_parse13(s: Seq<char>) -> Result<Seq<int>, ParseError> {
    let t = stripped(s);
    if t.len() != 13 {
        Err(ParseError::LengthError)
    } else if !chars13_ok(t) {
        Err(ParseError::CharacterError)
    } else if !bookland_prefix(char_vals(t)) {
        Err(ParseError::PrefixError)
    } else if sum13(char_vals(t)) % 10 != 0 {
        Err(ParseError::ChecksumError)
    } else {
        Ok(char_vals(t))
    }
}

/// The thirteen-digit form of a ten-symbol value string: prefix 978, the nine
/// leading digits, and a fresh mod-10 check digit; the old check value is
/// discarded.
pub open spec fn spec_convert(v: Seq<int>) -> Seq<int> {
    let body = seq![9int, 7int, 8int] + v.subrange(0, 9);
    let s = sum13_upto(body, 12);
    let c = if s % 10 == 0 {
        0int
    } else {
        10 - s % 10
    };
    body.push(c)
}

/// The ten-symbol form of a 978-prefixed thirteen-digit value string: the nine
/// digits after the prefix, and the unique check value that makes the mod-11
/// sum vanish.
pub open spec fn spec_convert_back(v: Seq<int>) -> Seq<int> {
    let body = v.subrange(3, 12);
    let s = sum10_upto(body, 9);
    let c = (11 - s % 11) % 11;
    body.push(c)
}

} // verus!
