//! Removal of the grouping separators (hyphens and spaces) that catalogue
//! data scatters through an ISBN, together with the facts the parsers need
//! about that normalization.

use vstd::prelude::*;
use vstd::string::StrSliceExecFns;

verus! {

/// A character that may appear as a grouping separator inside an ISBN string.
pub open spec fn is_separator(c: char) -> bool {
    c == '-' || c == ' '
}

/// The string with every separator removed and all other characters kept in order.
pub open spec fn stripped(s: Seq<char>) -> Seq<char>
    decreases s.len(),
{
    if s.len() == 0 {
        Seq::empty()
    } else if is_separator(s.last()) {
        stripped(s.drop_last())
    } else {
        stripped(s.drop_last()).push(s.last())
    }
}

/// Stripping keeps a separator-free string as it is.
pub proof fn lemma_stripped_sep_free(s: Seq<char>)
    requires
        forall|i: int| 0 <= i < s.len() ==> !is_separator(s[i]),
    ensures
        stripped(s) == s,
    decreases s.len(),
{
    if s.len() > 0 {
        lemma_stripped_sep_free(s.drop_last());
        assert(stripped(s.drop_last()).push(s.last()) =~= s);
    }
}

/// Inserting one more separator anywhere leaves the stripped string unchanged.
pub proof fn lemma_stripped_insert(s: Seq<char>, i: int, c: char)
    requires
        0 <= i <= s.len(),
        is_separator(c),
    ensures
        stripped(s.insert(i, c)) == stripped(s),
    decreases s.len(),
{
    let t = s.insert(i, c);
    if i == s.len() {
        assert(t.drop_last() =~= s);
    } else {
        assert(t.last() == s.last());
        assert(t.drop_last() =~= s.drop_last().insert(i, c));
        lemma_stripped_insert(s.drop_last(), i, c);
    }
}

/// Removes every hyphen and space from the input, keeping the other
/// characters in their original order.
pub fn strip_separators(input: &str) -> (out: Vec<char>)
    ensures
        out@ == stripped(input@),
{
    let n = input.unicode_len();
    let mut out: Vec<char> = Vec::new();
    let mut i: usize = 0;
    while i < n
        invariant
            n == input@.len(),
            i <= n,
            out@ == stripped(input@.subrange(0, i as int)),
        decreases n - i,
    {
        let c = input.get_char(i);
        proof {
            let pre = input@.subrange(0, i as int);
            let cur = input@.subrange(0, i as int + 1);
            assert(cur.drop_last() =~= pre);
            assert(cur.last() == c);
        }
        if !(c == '-' || c == ' ') {
            out.push(c);
        }
        i = i + 1;
    }
    proof {
        assert(input@.subrange(0, n as int) =~= input@);
    }
    out
}

} // verus!
