//! Lemmas about the model: how weighted sums respond to agreement and to a
//! single changed entry, the completion digits that make a sum divisible by
//! 10 or 11, why a single changed symbol can never keep either checksum, and
//! the facts about canonical symbol characters.

use vstd::prelude::*;
use vstd::arithmetic::div_mod::{
    lemma_add_mod_noop, lemma_fundamental_div_mod, lemma_mod_multiples_basic, lemma_small_mod,
};
use crate::model::{
    char_of_val, char_val, is_check_symbol_char, is_decimal, sum10_upto, sum13_upto, weight10,
    weight13,
};
use crate::normalize::is_separator;

verus! {

/// Two value strings that agree on their first `n` entries have the same
/// mod-11 weighted sum over those entries.
pub proof fn lemma_sum10_agree(a: Seq<int>, b: Seq<int>, n: int)
    requires
        forall|i: int| 0 <= i < n ==> a[i] == b[i],
    ensures
        sum10_upto(a, n) == sum10_upto(b, n),
    decreases n,
{
    if n > 0 {
        lemma_sum10_agree(a, b, n - 1);
    }
}

/// Two value strings that agree on their first `n` entries have the same
/// mod-10 weighted sum over those entries.
pub proof fn lemma_sum13_agree(a: Seq<int>, b: Seq<int>, n: int)
    requires
        forall|i: int| 0 <= i < n ==> a[i] == b[i],
    ensures
        sum13_upto(a, n) == sum13_upto(b, n),
    decreases n,
{
    if n > 0 {
        lemma_sum13_agree(a, b, n - 1);
    }
}

/// Replacing the entry at `i` moves a mod-11 weighted sum that covers it by
/// exactly the weighted difference, and leaves one that stops before it alone.
pub proof fn lemma_sum10_update(v: Seq<int>, n: int, i: int, x: int)
    requires
        0 <= i < v.len(),
        n <= v.len(),
    ensures
        i < n ==> sum10_upto(v.update(i, x), n) == sum10_upto(v, n) - v[i] * weight10(i) + x
            * weight10(i),
        i >= n ==> sum10_upto(v.update(i, x), n) == sum10_upto(v, n),
    decreases n,
{
    if n > 0 {
        lemma_sum10_update(v, n - 1, i, x);
    }
}

/// Replacing the entry at `i` moves a mod-10 weighted sum that covers it by
/// exactly the weighted difference, and leaves one that stops before it alone.
pub proof fn lemma_sum13_update(v: Seq<int>, n: int, i: int, x: int)
    requires
        0 <= i < v.len(),
        n <= v.len(),
    ensures
        i < n ==> sum13_upto(v.update(i, x), n) == sum13_upto(v, n) - v[i] * weight13(i) + x
            * weight13(i),
        i >= n ==> sum13_upto(v.update(i, x), n) == sum13_upto(v, n),
    decreases n,
{
    if n > 0 {
        lemma_sum13_update(v, n - 1, i, x);
    }
}

/// A mod-11 weighted sum of values that are not negative is not negative.
pub proof fn lemma_sum10_nonneg(v: Seq<int>, n: int)
    requires
        n <= 10,
        forall|i: int| 0 <= i < n ==> 0 <= v[i],
    ensures
        0 <= sum10_upto(v, n),
    decreases n,
{
    if n > 0 {
        lemma_sum10_nonneg(v, n - 1);
        assert(0 <= v[n - 1] * weight10(n - 1)) by (nonlinear_arith)
            requires
                0 <= v[n - 1],
                0 < weight10(n - 1),
        ;
    }
}

/// A mod-10 weighted sum of values that are not negative is not negative.
pub proof fn lemma_sum13_nonneg(v: Seq<int>, n: int)
    requires
        forall|i: int| 0 <= i < n ==> 0 <= v[i],
    ensures
        0 <= sum13_upto(v, n),
    decreases n,
{
    if n > 0 {
        lemma_sum13_nonneg(v, n - 1);
        assert(0 <= v[n - 1] * weight13(n - 1)) by (nonlinear_arith)
            requires
                0 <= v[n - 1],
                0 < weight13(n - 1),
        ;
    }
}

/// The completion digit for the mod-10 checksum: it is a digit, and adding it
/// makes the sum divisible by ten.
pub proof fn lemma_mod10_completion(s: int)
    requires
        s >= 0,
    ensures
        0 <= (if s % 10 == 0 { 0int } else { 10 - s % 10 }) <= 9,
        (s + (if s % 10 == 0 { 0int } else { 10 - s % 10 })) % 10 == 0,
{
    let c = if s % 10 == 0 { 0int } else { 10 - s % 10 };
    lemma_fundamental_div_mod(s, 10);
    if s % 10 != 0 {
        assert(s + c == 10 * (s / 10 + 1));
        lemma_mod_multiples_basic(s / 10 + 1, 10);
    }
}

/// The completion value for the mod-11 checksum: it is at most ten, and
/// adding it makes the sum divisible by eleven.
pub proof fn lemma_mod11_completion(s: int)
    requires
        s >= 0,
    ensures
        0 <= (11 - s % 11) % 11 <= 10,
        (s + (11 - s % 11) % 11) % 11 == 0,
{
    let c = (11 - s % 11) % 11;
    lemma_fundamental_div_mod(s, 11);
    if s % 11 == 0 {
        assert(c == 0);
    } else {
        lemma_small_mod((11 - s % 11) as nat, 11);
        assert(s + c == 11 * (s / 11 + 1));
        lemma_mod_multiples_basic(s / 11 + 1, 11);
    }
}

/// Multiplication by a weight 1..=10 is injective on symbol values mod 11.
proof fn lemma_mod11_injective(w: u32, a: u32, b: u32)
    requires
        1 <= w <= 10,
        a <= 10,
        b <= 10,
        (w * a) % 11 == (w * b) % 11,
    ensures
        a == b,
{
    assert((1 <= w <= 10 && a <= 10 && b <= 10 && (w * a) % 11 == (w * b) % 11) ==> a == b)
        by (bit_vector);
}

/// Multiplication by a weight of 1 or 3 is injective on digits mod 10.
proof fn lemma_mod10_injective(w: u32, a: u32, b: u32)
    requires
        w == 1 || w == 3,
        a <= 9,
        b <= 9,
        (w * a) % 10 == (w * b) % 10,
    ensures
        a == b,
{
    assert(((w == 1 || w == 3) && a <= 9 && b <= 9 && (w * a) % 10 == (w * b) % 10) ==> a == b)
        by (bit_vector);
}

/// Exchanging one weighted term for another with the same weight but a
/// different value never preserves divisibility by 11.
pub proof fn lemma_mod11_distinct(s: int, s2: int, w: int, a: int, b: int)
    requires
        s >= 0,
        s2 >= 0,
        s % 11 == 0,
        s2 + w * a == s + w * b,
        1 <= w <= 10,
        0 <= a <= 10,
        0 <= b <= 10,
        a != b,
    ensures
        s2 % 11 != 0,
{
    if s2 % 11 == 0 {
        lemma_add_mod_noop(s2, w * a, 11);
        lemma_add_mod_noop(s, w * b, 11);
        lemma_small_mod(((w * a) % 11) as nat, 11);
        lemma_small_mod(((w * b) % 11) as nat, 11);
        assert((w * a) % 11 == (w * b) % 11);
        assert(w * a == (w as u32) * (a as u32));
        assert(w * b == (w as u32) * (b as u32));
        lemma_mod11_injective(w as u32, a as u32, b as u32);
    }
}

/// Exchanging one weighted term for another with the same weight but a
/// different digit never preserves divisibility by 10.
pub proof fn lemma_mod10_distinct(s: int, s2: int, w: int, a: int, b: int)
    requires
        s >= 0,
        s2 >= 0,
        s % 10 == 0,
        s2 + w * a == s + w * b,
        w == 1 || w == 3,
        0 <= a <= 9,
        0 <= b <= 9,
        a != b,
    ensures
        s2 % 10 != 0,
{
    if s2 % 10 == 0 {
        lemma_add_mod_noop(s2, w * a, 10);
        lemma_add_mod_noop(s, w * b, 10);
        lemma_small_mod(((w * a) % 10) as nat, 10);
        lemma_small_mod(((w * b) % 10) as nat, 10);
        assert((w * a) % 10 == (w * b) % 10);
        assert(w * a == (w as u32) * (a as u32));
        assert(w * b == (w as u32) * (b as u32));
        lemma_mod10_injective(w as u32, a as u32, b as u32);
    }
}

/// The canonical character of each symbol value is no separator, is in its
/// class, and carries its value back.
pub proof fn lemma_char_of_val(v: int)
    requires
        0 <= v <= 10,
    ensures
        char_val(char_of_val(v)) == v,
        !is_separator(char_of_val(v)),
        v < 10 ==> is_decimal(char_of_val(v)),
        is_check_symbol_char(char_of_val(v)),
{
}

/// A decimal digit's value is a digit value, and only `X` carries the value ten.
pub proof fn lemma_symbol_val_range(c: char)
    ensures
        is_decimal(c) ==> 0 <= char_val(c) <= 9,
        is_check_symbol_char(c) ==> 0 <= char_val(c) <= 10,
{
}

} // verus!
