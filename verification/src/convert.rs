//! Executable conversion between the two forms: a ten-symbol value always
//! converts to its unique 978-prefixed thirteen-digit form; a thirteen-digit
//! value converts back exactly when it carries the 978 prefix.

use vstd::prelude::*;
use vstd::arithmetic::div_mod::lemma_small_mod;
use crate::isbn10::{CheckSymbol, Isbn10};
use crate::isbn13::Isbn13;
use crate::laws::{lemma_convert_back_valid, lemma_convert_valid};
use crate::model::{spec_convert, spec_convert_back, sum10_upto, sum13_upto, weight13};
use crate::proofs::{lemma_mod10_completion, lemma_mod11_completion};

verus! {

impl Isbn10 {
    /// The canonical thirteen-digit form: prefix 978, the nine leading
    /// digits, and a fresh mod-10 check digit in place of the old check
    /// symbol. Total: every valid ten-symbol ISBN converts.
    pub fn to_isbn13(&self) -> (r: Isbn13)
        requires
            self.wf(),
        ensures
            r.wf(),
            r@ == spec_convert(self@),
    {
        let ghost body = seq![9int, 7int, 8int] + self@.subrange(0, 9);
        let mut digits: Vec<u8> = Vec::new();
        digits.push(9);
        digits.push(7);
        digits.push(8);
        let mut i: usize = 0;
        while i < 9
            invariant
                self.wf(),
                body == seq![9int, 7int, 8int] + self@.subrange(0, 9),
                i <= 9,
                digits@.len() == 3 + i as int,
                forall|j: int| 0 <= j < 3 + i as int ==> #[trigger] digits@[j] as int == body[j],
            decreases 9 - i,
        {
            proof {
                assert(body[3 + i as int] == self@[i as int]);
                assert(self@[i as int] == self.digits@[i as int] as int);
            }
            digits.push(self.digits[i]);
            i = i + 1;
        }
        let mut sum: u32 = 0;
        let mut k: usize = 0;
        while k < 12
            invariant
                self.wf(),
                body == seq![9int, 7int, 8int] + self@.subrange(0, 9),
                digits@.len() == 12,
                forall|j: int| 0 <= j < 12 ==> #[trigger] digits@[j] as int == body[j],
                k <= 12,
                sum as int == sum13_upto(body, k as int),
                sum <= 30 * k,
            decreases 12 - k,
        {
            proof {
                if k >= 3 {
                    assert(body[k as int] == self@[k as int - 3]);
                }
                assert(0 <= body[k as int] < 10);
                let d = body[k as int];
                assert(d * 1 <= 9 && d * 3 <= 27) by (nonlinear_arith)
                    requires
                        0 <= d <= 9,
                ;
            }
            let w: u32 = if k % 2 == 0 {
                1
            } else {
                3
            };
            assert(w as int == weight13(k as int));
            sum = sum + (digits[k] as u32) * w;
            k = k + 1;
        }
        let rem = sum % 10;
        let check: u8 = if rem == 0 {
            0
        } else {
            (10 - rem) as u8
        };
        proof {
            lemma_mod10_completion(sum as int);
        }
        digits.push(check);
        let r = Isbn13 { digits };
        proof {
            assert(r@ =~= spec_convert(self@));
            lemma_convert_valid(self@);
        }
        r
    }
}

/// Converts a ten-symbol ISBN to its canonical thirteen-digit form; this is
/// the only path by which ten-symbol input reaches the output side.
pub fn convert(v: &Isbn10) -> (r: Isbn13)
    requires
        v.wf(),
    ensures
        r.wf(),
        r@ == spec_convert(v@),
{
    v.to_isbn13()
}

impl Isbn13 {
    /// The ten-symbol form of a 978-prefixed value: the nine digits after the
    /// prefix and a freshly computed mod-11 check symbol. A 979-prefixed
    /// value has no ten-symbol form and yields `None`.
    pub fn to_isbn10(&self) -> (r: Option<Isbn10>)
        requires
            self.wf(),
        ensures
            match r {
                Some(v) => self@[2] == 8 && v.wf() && v@ == spec_convert_back(self@),
                None => self@[2] == 9,
            },
    {
        if self.digits[2] == 9 {
            return None;
        }
        assert(self@[2] == 8);
        let ghost body = self@.subrange(3, 12);
        let mut digits: Vec<u8> = Vec::new();
        let mut i: usize = 0;
        while i < 9
            invariant
                self.wf(),
                body == self@.subrange(3, 12),
                i <= 9,
                digits@.len() == i as int,
                forall|j: int| 0 <= j < i as int ==> #[trigger] digits@[j] as int == body[j],
            decreases 9 - i,
        {
            proof {
                assert(body[i as int] == self@[3 + i as int]);
                assert(self@[3 + i as int] == self.digits@[3 + i as int] as int);
            }
            digits.push(self.digits[3 + i]);
            i = i + 1;
        }
        let mut sum: u32 = 0;
        let mut k: usize = 0;
        while k < 9
            invariant
                self.wf(),
                body == self@.subrange(3, 12),
                digits@.len() == 9,
                forall|j: int| 0 <= j < 9 ==> #[trigger] digits@[j] as int == body[j],
                k <= 9,
                sum as int == sum10_upto(body, k as int),
                sum <= 100 * k,
            decreases 9 - k,
        {
            proof {
                assert(body[k as int] == self@[3 + k as int]);
                assert(0 <= body[k as int] < 10);
                let d = body[k as int];
                let w = 10 - k as int;
                assert(d * w <= 90) by (nonlinear_arith)
                    requires
                        0 <= d <= 9,
                        1 <= w <= 10,
                ;
            }
            sum = sum + (digits[k] as u32) * (10 - k as u32);
            k = k + 1;
        }
        let rem = sum % 11;
        let cv: u8 = if rem == 0 {
            0
        } else {
            (11 - rem) as u8
        };
        proof {
            lemma_mod11_completion(sum as int);
            if rem != 0 {
                lemma_small_mod((11 - rem) as nat, 11);
            }
            assert(cv as int == (11 - sum10_upto(body, 9) % 11) % 11);
        }
        let check = if cv == 10 {
            CheckSymbol::Ten
        } else {
            CheckSymbol::Digit(cv)
        };
        let v = Isbn10 { digits, check };
        proof {
            assert(v@ =~= spec_convert_back(self@));
            lemma_convert_back_valid(self@);
        }
        Some(v)
    }
}

} // verus!
