//! The ten-symbol ISBN form: nine decimal digits and a check symbol (a digit
//! or the letter `X` standing for ten), validated by a mod-11 weighted sum.

use vstd::prelude::*;
use vstd::string::StrSliceExecFns;
use crate::ParseError;
use crate::model::{
    char_of_val, char_val, char_vals, chars10_ok, display_chars, is_check_symbol_char, is_decimal,
    spec_parse10, sum10, sum10_upto, valid10, weight10,
};
use crate::normalize::{strip_separators, stripped};
use crate::symbols::{digit_value, push_symbol};

verus! {

/// The last symbol of an ISBN-10: a decimal digit, or the letter `X`
/// standing for the value ten.
#[derive(Clone, Copy, Debug, PartialEq, Eq, Structural)]
pub enum CheckSymbol {
    Digit(u8),
    Ten,
}

impl CheckSymbol {
    /// The numeric value of the symbol.
    pub open spec fn spec_value(self) -> int {
        match self {
            CheckSymbol::Digit(d) => d as int,
            CheckSymbol::Ten => 10,
        }
    }

    /// A digit variant holds a value below ten; the value ten is only ever
    /// the `X` variant.
    pub open(crate) spec fn wf(self) -> bool {
        match self {
            CheckSymbol::Digit(d) => d < 10,
            CheckSymbol::Ten => true,
        }
    }

    /// The numeric value of the symbol.
    pub fn value(&self) -> (v: u8)
        ensures
            v as int == self.spec_value(),
    {
        match self {
            CheckSymbol::Digit(d) => *d,
            CheckSymbol::Ten => 10,
        }
    }
}

/// A validated ten-symbol ISBN. Values exist only through [`Isbn10::parse`],
/// so every value satisfies [`Isbn10::wf`].
#[derive(Clone, Debug, PartialEq, Eq)]
pub struct Isbn10 {
    pub(crate) digits: Vec<u8>,
    pub(crate) check: CheckSymbol,
}

impl View for Isbn10 {
    type V = Seq<int>;

    /// The ten symbol values, the check value last.
    open(crate) spec fn view(&self) -> Seq<int> {
        Seq::new(
            10,
            |i: int|
                if i < 9 {
                    self.digits@[i] as int
                } else {
                    self.check.spec_value()
                },
        )
    }
}

impl Isbn10 {
    /// The representation invariant: nine stored digits, a well-formed check
    /// symbol, and a value string that passes the mod-11 checksum.
    pub open(crate) spec fn wf(self) -> bool {
        self.digits@.len() == 9 && self.check.wf() && valid10(self@)
    }

    /// Parses a candidate string: strips hyphens and spaces, demands exactly
    /// nine digits and one check symbol, and verifies the mod-11 checksum.
    /// The result is exactly what [`spec_parse10`] says for the input.
    pub fn parse(input: &str) -> (r: Result<Isbn10, ParseError>)
        ensures
            match r {
                Ok(v) => v.wf() && spec_parse10(input@) == Ok::<Seq<int>, ParseError>(v@),
                Err(e) => spec_parse10(input@) == Err::<Seq<int>, ParseError>(e),
            },
    {
        let t = strip_separators(input);
        let ghost ts = stripped(input@);
        if t.len() != 10 {
            return Err(ParseError::LengthError);
        }
        let mut digits: Vec<u8> = Vec::new();
        let mut i: usize = 0;
        while i < 9
            invariant
                t@ == ts,
                ts == stripped(input@),
                ts.len() == 10,
                i <= 9,
                digits@.len() == i as int,
                forall|j: int| 0 <= j < i as int ==> is_decimal(#[trigger] ts[j]),
                forall|j: int| 0 <= j < i as int ==> digits@[j] as int == char_val(#[trigger] ts[j]),
            decreases 9 - i,
        {
            let c = t[i];
            match digit_value(c) {
                Some(d) => digits.push(d),
                None => {
                    assert(!is_decimal(ts[i as int]));
                    return Err(ParseError::CharacterError);
                },
            }
            i = i + 1;
        }
        let c9 = t[9];
        let check = if c9 == 'X' || c9 == 'x' {
            CheckSymbol::Ten
        } else {
            match digit_value(c9) {
                Some(d) => CheckSymbol::Digit(d),
                None => {
                    assert(!is_check_symbol_char(ts[9]));
                    return Err(ParseError::CharacterError);
                },
            }
        };
        assert(chars10_ok(ts));
        let mut sum: u32 = 0;
        let mut k: usize = 0;
        while k < 9
            invariant
                digits@.len() == 9,
                ts.len() == 10,
                forall|j: int| 0 <= j < 9 ==> is_decimal(#[trigger] ts[j]),
                forall|j: int| 0 <= j < 9 ==> digits@[j] as int == char_val(#[trigger] ts[j]),
                k <= 9,
                sum as int == sum10_upto(char_vals(ts), k as int),
                sum <= 100 * k,
            decreases 9 - k,
        {
            proof {
                crate::proofs::lemma_symbol_val_range(ts[k as int]);
                assert(char_vals(ts)[k as int] == char_val(ts[k as int]));
                let d = digits@[k as int] as int;
                let w = 10 - k as int;
                assert(d * w <= 90) by (nonlinear_arith)
                    requires
                        0 <= d <= 9,
                        1 <= w <= 10,
                ;
            }
            sum = sum + (digits[k] as u32) * (10 - k as u32);
            k = k + 1;
        }
        let cv = check.value();
        proof {
            assert(char_val(ts[9]) == cv as int);
            assert(char_vals(ts)[9] == char_val(ts[9]));
            assert(sum10(char_vals(ts)) == sum10_upto(char_vals(ts), 9) + char_vals(ts)[9]
                * weight10(9));
        }
        let sum = sum + cv as u32;
        if sum % 11 != 0 {
            return Err(ParseError::ChecksumError);
        }
        let v = Isbn10 { digits, check };
        proof {
            assert(v@ =~= char_vals(ts));
        }
        Ok(v)
    }

    /// The canonical compact rendering: the nine digits then the check
    /// symbol, ten characters, no separators, `X` upper case.
    pub fn to_string(&self) -> (r: String)
        requires
            self.wf(),
        ensures
            r@ == display_chars(self@),
            r@.len() == 10,
    {
        let mut r = String::new();
        let mut i: usize = 0;
        while i < 9
            invariant
                self.wf(),
                i <= 9,
                r@.len() == i as int,
                forall|j: int| 0 <= j < i as int ==> r@[j] == char_of_val(#[trigger] self@[j]),
            decreases 9 - i,
        {
            proof {
                assert(self@[i as int] == self.digits@[i as int] as int);
                assert(0 <= self@[i as int] < 10);
            }
            push_symbol(&mut r, self.digits[i]);
            i = i + 1;
        }
        proof {
            assert(0 <= self@[9] <= 10);
        }
        push_symbol(&mut r, self.check.value());
        proof {
            assert(r@ =~= display_chars(self@));
        }
        r
    }
}

} // verus!

