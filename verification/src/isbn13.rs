//! The thirteen-digit ISBN form: an EAN-13 code with Bookland prefix 978 or
//! 979, validated by an alternating-weight mod-10 checksum.

use vstd::prelude::*;
use crate::ParseError;
use crate::model::{
    bookland_prefix, char_of_val, char_val, char_vals, chars13_ok, display_chars, is_decimal,
    spec_parse13, sum13, sum13_upto, valid13, weight13,
};
use crate::normalize::{strip_separators, stripped};
use crate::symbols::{digit_value, push_symbol};

verus! {

/// A validated thirteen-digit ISBN. Values exist only through
/// [`Isbn13::parse`] and the conversion from the ten-symbol form, so every
/// value satisfies [`Isbn13::wf`].
#[derive(Clone, Debug, PartialEq, Eq)]
pub struct Isbn13 {
    pub(crate) digits: Vec<u8>,
}

impl View for Isbn13 {
    type V = Seq<int>;

    /// The thirteen digit values.
    open(crate) spec fn view(&self) -> Seq<int> {
        Seq::new(13, |i: int| self.digits@[i] as int)
    }
}

impl Isbn13 {
    /// The representation invariant: thirteen stored digits forming a valid
    /// value string.
    pub open(crate) spec fn wf(self) -> bool {
        self.digits@.len() == 13 && valid13(self@)
    }

    /// Parses a candidate string: strips hyphens and spaces, demands exactly
    /// thirteen digits with a Bookland prefix, and verifies the mod-10
    /// checksum. The result is exactly what [`spec_parse13`] says for the
    /// input.
    pub fn parse(input: &str) -> (r: Result<Isbn13, ParseError>)
        ensures
            match r {
                Ok(v) => v.wf() && spec_parse13(input@) == Ok::<Seq<int>, ParseError>(v@),
                Err(e) => spec_parse13(input@) == Err::<Seq<int>, ParseError>(e),
            },
    {
        let t = strip_separators(input);
        let ghost ts = stripped(input@);
        if t.len() != 13 {
            return Err(ParseError::LengthError);
        }
        let mut digits: Vec<u8> = Vec::new();
        let mut i: usize = 0;
        while i < 13
            invariant
                t@ == ts,
                ts == stripped(input@),
                ts.len() == 13,
                i <= 13,
                digits@.len() == i as int,
                forall|j: int| 0 <= j < i as int ==> is_decimal(#[trigger] ts[j]),
                forall|j: int|
                    0 <= j < i as int ==> digits@[j] as int == char_val(#[trigger] ts[j]),
            decreases 13 - i,
        {
            let c = t[i];
            match digit_value(c) {
                Some(d) => digits.push(d),
                None => {
                    assert(!is_decimal(ts[i as int]));
                    return Err(ParseError::CharacterError);
                },
            }
            i = i + 1;
        }
        assert(chars13_ok(ts));
        proof {
            assert(char_vals(ts)[0] == char_val(ts[0]));
            assert(char_vals(ts)[1] == char_val(ts[1]));
            assert(char_vals(ts)[2] == char_val(ts[2]));
        }
        if !(digits[0] == 9 && digits[1] == 7 && (digits[2] == 8 || digits[2] == 9)) {
            assert(!bookland_prefix(char_vals(ts)));
            return Err(ParseError::PrefixError);
        }
        assert(bookland_prefix(char_vals(ts)));
        let mut sum: u32 = 0;
        let mut k: usize = 0;
        while k < 13
            invariant
                ts == stripped(input@),
                ts.len() == 13,
                digits@.len() == 13,
                forall|j: int| 0 <= j < 13 ==> is_decimal(#[trigger] ts[j]),
                forall|j: int| 0 <= j < 13 ==> digits@[j] as int == char_val(#[trigger] ts[j]),
                k <= 13,
                sum as int == sum13_upto(char_vals(ts), k as int),
                sum <= 30 * k,
            decreases 13 - k,
        {
            proof {
                crate::proofs::lemma_symbol_val_range(ts[k as int]);
                assert(char_vals(ts)[k as int] == char_val(ts[k as int]));
                let d = digits@[k as int] as int;
                assert(d * 1 <= 9 && d * 3 <= 27) by (nonlinear_arith)
                    requires
                        0 <= d <= 9,
                ;
            }
            let w: u32 = if k % 2 == 0 {
                1
            } else {
                3
            };
            assert(w as int == weight13(k as int));
            sum = sum + (digits[k] as u32) * w;
            k = k + 1;
        }
        if sum % 10 != 0 {
            return Err(ParseError::ChecksumError);
        }
        let v = Isbn13 { digits };
        proof {
            assert(v@ =~= char_vals(ts));
        }
        Ok(v)
    }

    /// The canonical compact rendering: the thirteen digits, no separators.
    pub fn to_string(&self) -> (r: String)
        requires
            self.wf(),
        ensures
            r@ == display_chars(self@),
            r@.len() == 13,
    {
        let mut r = String::new();
        let mut i: usize = 0;
        while i < 13
            invariant
                self.wf(),
                i <= 13,
                r@.len() == i as int,
                forall|j: int| 0 <= j < i as int ==> r@[j] == char_of_val(#[trigger] self@[j]),
            decreases 13 - i,
        {
            proof {
                assert(self@[i as int] == self.digits@[i as int] as int);
                assert(0 <= self@[i as int] < 10);
            }
            push_symbol(&mut r, self.digits[i]);
            i = i + 1;
        }
        proof {
            assert(r@ =~= display_chars(self@));
        }
        r
    }
}

} // verus!
