//! Executable helpers for single ISBN symbols: reading a digit character's
//! value and appending a value's canonical character to a string.

use vstd::prelude::*;
use vstd::string::StringExecFns;
use crate::model::{char_of_val, char_val, is_decimal};

verus! {

/// The value of a decimal digit character, or `None` for any other character.
pub(crate) fn digit_value(c: char) -> (r: Option<u8>)
    ensures
        match r {
            Some(d) => is_decimal(c) && d < 10 && d as int == char_val(c),
            None => !is_decimal(c),
        },
{
    if c == '0' {
        Some(0)
    } else if c == '1' {
        Some(1)
    } else if c == '2' {
        Some(2)
    } else if c == '3' {
        Some(3)
    } else if c == '4' {
        Some(4)
    } else if c == '5' {
        Some(5)
    } else if c == '6' {
        Some(6)
    } else if c == '7' {
        Some(7)
    } else if c == '8' {
        Some(8)
    } else if c == '9' {
        Some(9)
    } else {
        None
    }
}

/// Appends the canonical character for one symbol value.
pub(crate) fn push_symbol(s: &mut String, v: u8)
    requires
        v <= 10,
    ensures
        final(s)@ == old(s)@.push(char_of_val(v as int)),
{
    if v == 0 {
        proof {
            reveal_strlit("0");
        }
        s.append("0");
        proof {
            assert(s@ =~= old(s)@.push('0'));
        }
    } else if v == 1 {
        proof {
            reveal_strlit("1");
        }
        s.append("1");
        proof {
            assert(s@ =~= old(s)@.push('1'));
        }
    } else if v == 2 {
        proof {
            reveal_strlit("2");
        }
        s.append("2");
        proof {
            assert(s@ =~= old(s)@.push('2'));
        }
    } else if v == 3 {
        proof {
            reveal_strlit("3");
        }
        s.append("3");
        proof {
            assert(s@ =~= old(s)@.push('3'));
        }
    } else if v == 4 {
        proof {
            reveal_strlit("4");
        }
        s.append("4");
        proof {
            assert(s@ =~= old(s)@.push('4'));
        }
    } else if v == 5 {
        proof {
            reveal_strlit("5");
        }
        s.append("5");
        proof {
            assert(s@ =~= old(s)@.push('5'));
        }
    } else if v == 6 {
        proof {
            reveal_strlit("6");
        }
        s.append("6");
        proof {
            assert(s@ =~= old(s)@.push('6'));
        }
    } else if v == 7 {
        proof {
            reveal_strlit("7");
        }
        s.append("7");
        proof {
            assert(s@ =~= old(s)@.push('7'));
        }
    } else if v == 8 {
        proof {
            reveal_strlit("8");
        }
        s.append("8");
        proof {
            assert(s@ =~= old(s)@.push('8'));
        }
    } else if v == 9 {
        proof {
            reveal_strlit("9");
        }
        s.append("9");
        proof {
            assert(s@ =~= old(s)@.push('9'));
        }
    } else {
        proof {
            reveal_strlit("X");
        }
        s.append("X");
        proof {
            assert(s@ =~= old(s)@.push('X'));
        }
    }
}

} // verus!
