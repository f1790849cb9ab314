//! The general laws of the library, proved once for every input: parsing
//! inverts printing, grouping separators never change a parse, conversion
//! always yields a valid 978-prefixed thirteen-digit value and is undone by
//! the backward conversion, and no single changed symbol survives a checksum.

use vstd::prelude::*;
use crate::ParseError;
use crate::model::{
    bookland_prefix, char_of_val, char_val, char_vals, chars10_ok, chars13_ok, display_chars,
    is_check_symbol_char, is_decimal, spec_convert, spec_convert_back, spec_parse10, spec_parse13,
    sum10, sum10_upto, sum13, sum13_upto, valid10, valid13, weight10, weight13,
};
use crate::normalize::{
    is_separator, lemma_stripped_insert, lemma_stripped_sep_free, stripped,
};
use crate::proofs::{
    lemma_char_of_val, lemma_mod10_completion, lemma_mod10_distinct, lemma_mod11_completion,
    lemma_mod11_distinct, lemma_sum10_agree, lemma_sum10_nonneg, lemma_sum10_update,
    lemma_sum13_agree, lemma_sum13_nonneg, lemma_sum13_update, lemma_symbol_val_range,
};

verus! {

/// Printing a valid ten-symbol value string and parsing it back yields
/// exactly the same value string.
pub proof fn lemma_parse10_round_trip(v: Seq<int>)
    requires
        valid10(v),
    ensures
        spec_parse10(display_chars(v)) == Ok::<Seq<int>, ParseError>(v),
{
    let t = display_chars(v);
    assert forall|i: int| 0 <= i < 10 implies !is_separator(#[trigger] t[i]) by {
        lemma_char_of_val(v[i]);
    }
    lemma_stripped_sep_free(t);
    assert forall|i: int| 0 <= i < 9 implies is_decimal(#[trigger] t[i]) by {
        lemma_char_of_val(v[i]);
    }
    lemma_char_of_val(v[9]);
    assert(chars10_ok(t));
    assert forall|i: int| 0 <= i < 10 implies char_vals(t)[i] == v[i] by {
        lemma_char_of_val(v[i]);
    }
    assert(char_vals(t) =~= v);
}

/// Printing a valid thirteen-digit value string and parsing it back yields
/// exactly the same value string.
pub proof fn lemma_parse13_round_trip(v: Seq<int>)
    requires
        valid13(v),
    ensures
        spec_parse13(display_chars(v)) == Ok::<Seq<int>, ParseError>(v),
{
    let t = display_chars(v);
    assert forall|i: int| 0 <= i < 13 implies !is_separator(#[trigger] t[i]) by {
        lemma_char_of_val(v[i]);
    }
    lemma_stripped_sep_free(t);
    assert forall|i: int| 0 <= i < 13 implies is_decimal(#[trigger] t[i]) by {
        lemma_char_of_val(v[i]);
    }
    assert(chars13_ok(t));
    assert forall|i: int| 0 <= i < 13 implies char_vals(t)[i] == v[i] by {
        lemma_char_of_val(v[i]);
    }
    assert(char_vals(t) =~= v);
}

/// Inserting a hyphen or a space at any position changes the outcome of
/// neither parser.
pub proof fn lemma_separator_insertion(s: Seq<char>, i: int, c: char)
    requires
        0 <= i <= s.len(),
        is_separator(c),
    ensures
        spec_parse10(s.insert(i, c)) == spec_parse10(s),
        spec_parse13(s.insert(i, c)) == spec_parse13(s),
{
    lemma_stripped_insert(s, i, c);
}

/// No candidate is accepted by both parsers: the stripped string cannot be
/// ten and thirteen symbols long at once, so trying the ten-symbol form
/// first can never shadow a thirteen-digit reading.
pub proof fn lemma_parsers_disjoint(s: Seq<char>)
    ensures
        !(spec_parse10(s) is Ok && spec_parse13(s) is Ok),
{
}

/// Converting a valid ten-symbol value yields a valid thirteen-digit value
/// with prefix 978 that keeps the nine leading digits.
pub proof fn lemma_convert_valid(v: Seq<int>)
    requires
        valid10(v),
    ensures
        valid13(spec_convert(v)),
        spec_convert(v)[0] == 9 && spec_convert(v)[1] == 7 && spec_convert(v)[2] == 8,
        forall|j: int| 0 <= j < 9 ==> #[trigger] spec_convert(v)[j + 3] == v[j],
{
    let body = seq![9int, 7int, 8int] + v.subrange(0, 9);
    let s = sum13_upto(body, 12);
    assert forall|i: int| 0 <= i < 12 implies 0 <= #[trigger] body[i] < 10 by {
        if i >= 3 {
            assert(body[i] == v[i - 3]);
        }
    }
    lemma_sum13_nonneg(body, 12);
    lemma_mod10_completion(s);
    let c = if s % 10 == 0 {
        0int
    } else {
        10 - s % 10
    };
    let conv = body.push(c);
    lemma_sum13_agree(conv, body, 12);
    assert(sum13(conv) == s + c);
    assert(valid13(conv));
}

/// Converting a 978-prefixed thirteen-digit value back yields a valid
/// ten-symbol value that keeps the nine payload digits.
pub proof fn lemma_convert_back_valid(v: Seq<int>)
    requires
        valid13(v),
        v[2] == 8,
    ensures
        valid10(spec_convert_back(v)),
        forall|j: int| 0 <= j < 9 ==> #[trigger] spec_convert_back(v)[j] == v[j + 3],
{
    let body = v.subrange(3, 12);
    let s = sum10_upto(body, 9);
    assert forall|i: int| 0 <= i < 9 implies 0 <= #[trigger] body[i] < 10 by {
        assert(body[i] == v[i + 3]);
    }
    lemma_sum10_nonneg(body, 9);
    lemma_mod11_completion(s);
    let c = (11 - s % 11) % 11;
    let back = body.push(c);
    lemma_sum10_agree(back, body, 9);
    assert(sum10(back) == s + c * weight10(9));
    assert(valid10(back));
}

/// The backward conversion undoes the forward one: a valid ten-symbol value
/// survives the trip through its thirteen-digit form unchanged, check symbol
/// included.
pub proof fn lemma_convert_round_trip(v: Seq<int>)
    requires
        valid10(v),
    ensures
        spec_convert_back(spec_convert(v)) == v,
{
    lemma_convert_valid(v);
    let f = spec_convert(v);
    let body = f.subrange(3, 12);
    assert forall|i: int| 0 <= i < 9 implies #[trigger] body[i] == v[i] by {
        assert(f[i + 3] == v[i]);
    }
    lemma_sum10_agree(body, v, 9);
    let s = sum10_upto(body, 9);
    lemma_sum10_nonneg(body, 9);
    lemma_mod11_completion(s);
    let c = (11 - s % 11) % 11;
    assert(sum10(v) == sum10_upto(v, 9) + v[9] * weight10(9));
    if c != v[9] {
        lemma_mod11_distinct(s + v[9], s + c, 1, v[9], c);
        assert(false);
    }
    assert(spec_convert_back(f) =~= v);
}

/// Changing any single symbol of a valid ten-symbol candidate to another
/// symbol of a different value is always caught by the mod-11 checksum.
pub proof fn lemma_checksum_sensitivity10(t: Seq<char>, i: int, c: char)
    requires
        chars10_ok(t),
        sum10(char_vals(t)) % 11 == 0,
        0 <= i < 10,
        i < 9 ==> is_decimal(c),
        i == 9 ==> is_check_symbol_char(c),
        char_val(c) != char_val(t[i]),
    ensures
        spec_parse10(t.update(i, c)) == Err::<Seq<int>, ParseError>(ParseError::ChecksumError),
{
    let t2 = t.update(i, c);
    assert forall|j: int| 0 <= j < 10 implies !is_separator(#[trigger] t2[j]) by {
        lemma_symbol_val_range(t2[j]);
        if j != i {
            assert(t2[j] == t[j]);
        }
    }
    lemma_stripped_sep_free(t2);
    assert(chars10_ok(t2));
    let a = char_val(t[i]);
    let b = char_val(c);
    let vals = char_vals(t);
    let vals2 = char_vals(t2);
    assert(vals2 =~= vals.update(i, b));
    lemma_sum10_update(vals, 10, i, b);
    assert forall|j: int| 0 <= j < 10 implies 0 <= #[trigger] vals[j] <= 10 by {
        lemma_symbol_val_range(t[j]);
    }
    assert forall|j: int| 0 <= j < 10 implies 0 <= #[trigger] vals2[j] <= 10 by {
        lemma_symbol_val_range(t2[j]);
    }
    lemma_sum10_nonneg(vals, 10);
    lemma_sum10_nonneg(vals2, 10);
    lemma_symbol_val_range(t[i]);
    lemma_symbol_val_range(c);
    assert(vals[i] == a);
    assert(sum10(vals2) == sum10(vals) - a * weight10(i) + b * weight10(i));
    lemma_mod11_distinct(sum10(vals), sum10(vals2), weight10(i), a, b);
}

/// Changing any single digit of a valid thirteen-digit candidate to a
/// different digit never parses: inside the prefix it is caught as a bad
/// prefix or by the checksum, and past the prefix always by the mod-10
/// checksum.
pub proof fn lemma_checksum_sensitivity13(t: Seq<char>, i: int, c: char)
    requires
        chars13_ok(t),
        bookland_prefix(char_vals(t)),
        sum13(char_vals(t)) % 10 == 0,
        0 <= i < 13,
        is_decimal(c),
        char_val(c) != char_val(t[i]),
    ensures
        spec_parse13(t.update(i, c)) is Err,
        3 <= i ==> spec_parse13(t.update(i, c)) == Err::<Seq<int>, ParseError>(
            ParseError::ChecksumError,
        ),
{
    let t2 = t.update(i, c);
    assert forall|j: int| 0 <= j < 13 implies !is_separator(#[trigger] t2[j]) by {
        lemma_symbol_val_range(t2[j]);
        if j != i {
            assert(t2[j] == t[j]);
        }
    }
    lemma_stripped_sep_free(t2);
    assert(chars13_ok(t2));
    let a = char_val(t[i]);
    let b = char_val(c);
    let vals = char_vals(t);
    let vals2 = char_vals(t2);
    assert(vals2 =~= vals.update(i, b));
    if bookland_prefix(vals2) {
        lemma_sum13_update(vals, 13, i, b);
        assert forall|j: int| 0 <= j < 13 implies 0 <= #[trigger] vals[j] <= 9 by {
            lemma_symbol_val_range(t[j]);
        }
        assert forall|j: int| 0 <= j < 13 implies 0 <= #[trigger] vals2[j] <= 9 by {
            lemma_symbol_val_range(t2[j]);
        }
        lemma_sum13_nonneg(vals, 13);
        lemma_sum13_nonneg(vals2, 13);
        lemma_symbol_val_range(t[i]);
        lemma_symbol_val_range(c);
        assert(weight13(i) == 1 || weight13(i) == 3);
        assert(vals[i] == a);
        assert(sum13(vals2) == sum13(vals) - a * weight13(i) + b * weight13(i));
        lemma_mod10_distinct(sum13(vals), sum13(vals2), weight13(i), a, b);
        assert(spec_parse13(t2) == Err::<Seq<int>, ParseError>(ParseError::ChecksumError));
    } else {
        assert(spec_parse13(t2) == Err::<Seq<int>, ParseError>(ParseError::PrefixError));
        assert(3 <= i ==> vals2 =~= vals.update(i, b) && bookland_prefix(vals2));
    }
}

} // verus!
