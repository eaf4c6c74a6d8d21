//! Ownership and borrowing exercises on strings.

use crate::text::sep_index;
use vstd::prelude::*;

verus! {

/// The first word of `s`: everything before the first space, or all of
/// `s` when it holds no space.
pub open spec fn first_word_spec(s: Seq<char>) -> Seq<char> {
    if sep_index(s, ' ') == -1 {
        s
    } else {
        s.take(sep_index(s, ' '))
    }
}

/// The first space-delimited word of `s`.
pub fn first_word(s: &str) -> (r: &str)
    ensures
        r@ == first_word_spec(s@),
{
    let n = s.unicode_len();
    let mut i: usize = 0;
    while i < n
        invariant
            0 <= i <= n,
            n == s@.len(),
            forall|j: int| 0 <= j < i ==> s@[j] != ' ',
        decreases n - i,
    {
        if s.get_char(i) == ' ' {
            proof {
                crate::text::lemma_sep_index_of(s@, ' ', i as int);
                assert(s@.take(i as int) =~= s@.subrange(0, i as int));
            }
            return s.substring_char(0, i);
        }
        i = i + 1;
    }
    proof {
        crate::text::lemma_sep_index(s@, ' ');
        if sep_index(s@, ' ') != -1 {
            assert(s@[sep_index(s@, ' ')] == ' ');
            assert(false);
        }
        assert(s@.subrange(0, n as int) =~= s@);
    }
    s.substring_char(0, n)
}

/// Hand a fresh owned string back to the caller.
pub fn dangle_ptr() -> (r: String)
    ensures
        r@ == "hellow dangle data"@,
{
    String::from_str("hellow dangle data")
}

/// Grow a borrowed string in place.
pub fn change_string(s: &mut String)
    ensures
        final (s)@ == old(s)@ + " world!"@,
{
    s.append(" world!");
}

/// Take ownership of a string and give it straight back.
pub fn takes_and_gives_back(s: String) -> (r: String)
    ensures
        r == s,
{
    s
}

} // verus!
