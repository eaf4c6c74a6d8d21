//! Small verified text utilities shared by the record parsers: splitting
//! on a separator character, trimming trailing whitespace, and reading
//! unsigned decimal digit strings.

use vstd::prelude::*;
use vstd::string::StringExecFns;

verus! {

/// Decimal digit.
pub open spec fn is_digit(c: char) -> bool {
    48 <= c as u32 <= 57
}

/// Numeric value of a decimal digit.
pub open spec fn digit_val(c: char) -> int {
    c as u32 - 48
}

/// Value of a digit string, most significant digit first.
pub open spec fn digits_val(s: Seq<char>) -> int
    decreases s.len(),
{
    if s.len() == 0 {
        0
    } else {
        digits_val(s.drop_last()) * 10 + digit_val(s.last())
    }
}

/// Every character is a decimal digit.
pub open spec fn all_digits(s: Seq<char>) -> bool {
    forall|i: int| 0 <= i < s.len() ==> is_digit(s[i])
}

/// Horizontal whitespace (and a stray carriage return) at line ends.
pub open spec fn is_ws(c: char) -> bool {
    c == ' ' || c == '\t' || c == '\r'
}

/// `s` without its trailing whitespace.
pub open spec fn trimmed_end(s: Seq<char>) -> Seq<char>
    decreases s.len(),
{
    if s.len() > 0 && is_ws(s.last()) {
        trimmed_end(s.drop_last())
    } else {
        s
    }
}

/// Index of the first occurrence of `sep` in `s`, or -1.
pub open spec fn sep_index(s: Seq<char>, sep: char) -> int
    decreases s.len(),
{
    if s.len() == 0 {
        -1
    } else if s[0] == sep {
        0
    } else {
        let r = sep_index(s.skip(1), sep);
        if r == -1 {
            -1
        } else {
            r + 1
        }
    }
}

/// What `sep_index` finds: the least index holding `sep`, if any.
pub proof fn lemma_sep_index(s: Seq<char>, sep: char)
    ensures
        sep_index(s, sep) == -1 ==> forall|i: int| 0 <= i < s.len() ==> s[i] != sep,
        sep_index(s, sep) != -1 ==> {
            let r = sep_index(s, sep);
            &&& 0 <= r < s.len()
            &&& s[r] == sep
            &&& forall|i: int| 0 <= i < r ==> s[i] != sep
        },
    decreases s.len(),
{
    if s.len() > 0 && s[0] != sep {
        lemma_sep_index(s.skip(1), sep);
        let r = sep_index(s, sep);
        if sep_index(s.skip(1), sep) != -1 {
            assert(forall|i: int| 0 < i < r ==> s[i] == s.skip(1)[i - 1]);
        } else {
            assert(forall|i: int| 0 < i < s.len() ==> s[i] == s.skip(1)[i - 1]);
        }
    }
}

/// Converse: an occurrence with a clean prefix pins `sep_index` down.
pub proof fn lemma_sep_index_of(s: Seq<char>, sep: char, k: int)
    requires
        0 <= k < s.len(),
        s[k] == sep,
        forall|i: int| 0 <= i < k ==> s[i] != sep,
    ensures
        sep_index(s, sep) == k,
{
    lemma_sep_index(s, sep);
    let r = sep_index(s, sep);
    if r == -1 {
        assert(s[k] != sep);
        assert(false);
    }
}

/// `s` split on `sep`; empty fields are kept, so the result always has
/// one more field than `s` has separators.
pub open spec fn split_spec(s: Seq<char>, sep: char) -> Seq<Seq<char>>
    decreases s.len(),
{
    let r = sep_index(s, sep);
    if r < 0 || r >= s.len() {
        seq![s]
    } else {
        seq![s.take(r)] + split_spec(s.skip(r + 1), sep)
    }
}

/// Split `s` at every occurrence of `sep`.
pub fn split_on_char(s: &str, sep: char) -> (parts: Vec<String>)
    ensures
        parts@.map_values(|p: String| p@) == split_spec(s@, sep),
{
    let n = s.unicode_len();
    let mut out: Vec<String> = Vec::new();
    let mut start: usize = 0;
    let mut i: usize = 0;
    proof {
        assert(s@.skip(0) =~= s@);
        assert(out@.map_values(|p: String| p@) =~= Seq::<Seq<char>>::empty());
    }
    while i < n
        invariant
            0 <= start <= i <= n,
            n == s@.len(),
            forall|j: int| start <= j < i ==> s@[j] != sep,
            split_spec(s@, sep) == out@.map_values(|p: String| p@) + split_spec(
                s@.skip(start as int),
                sep,
            ),
        decreases n - i,
    {
        let c = s.get_char(i);
        if c == sep {
            let tok = s.substring_char(start, i).to_owned();
            proof {
                let tail = s@.skip(start as int);
                assert(forall|j: int| 0 <= j < i - start ==> tail[j] == s@[start + j]);
                lemma_sep_index_of(tail, sep, i - start);
                assert(tail.take(i - start) =~= s@.subrange(start as int, i as int));
                assert(tail.skip(i - start + 1) =~= s@.skip(i + 1));
                assert((out@ + seq![tok]).map_values(|p: String| p@) =~= out@.map_values(
                    |p: String| p@,
                ) + seq![tok@]);
            }
            out.push(tok);
            start = i + 1;
        }
        i = i + 1;
    }
    let tok = s.substring_char(start, n).to_owned();
    proof {
        let tail = s@.skip(start as int);
        assert(forall|j: int| 0 <= j < tail.len() ==> tail[j] == s@[start + j]);
        lemma_sep_index(tail, sep);
        assert(sep_index(tail, sep) == -1);
        assert(tail =~= s@.subrange(start as int, n as int));
        assert((out@ + seq![tok]).map_values(|p: String| p@) =~= out@.map_values(|p: String| p@)
            + seq![tok@]);
    }
    out.push(tok);
    out
}

/// Non-empty tokens of `s`, split on spaces: the whitespace-separated
/// words of a record field.
pub open spec fn tokens_spec(s: Seq<char>) -> Seq<Seq<char>> {
    split_spec(s, ' ').filter(|t: Seq<char>| t.len() > 0)
}

/// The whitespace-separated tokens of `s`.
pub fn tokenize(s: &str) -> (tokens: Vec<String>)
    ensures
        tokens@.map_values(|p: String| p@) == tokens_spec(s@),
{
    let parts = split_on_char(s, ' ');
    let mut out: Vec<String> = Vec::new();
    let ghost pview = parts@.map_values(|p: String| p@);
    let mut i: usize = 0;
    proof {
        assert(pview.take(0) =~= Seq::<Seq<char>>::empty());
        assert(Seq::<Seq<char>>::empty().filter(|t: Seq<char>| t.len() > 0)
            =~= Seq::<Seq<char>>::empty());
    }
    while i < parts.len()
        invariant
            i <= parts.len(),
            pview == parts@.map_values(|p: String| p@),
            out@.map_values(|p: String| p@) == pview.take(i as int).filter(
                |t: Seq<char>| t.len() > 0,
            ),
        decreases parts.len() - i,
    {
        let p = &parts[i];
        proof {
            assert(pview.take(i + 1) =~= pview.take(i as int) + seq![p@]);
            Seq::filter_distributes_over_add(
                pview.take(i as int),
                seq![p@],
                |t: Seq<char>| t.len() > 0,
            );
            reveal_with_fuel(Seq::filter, 2);
            assert(seq![p@].drop_last() =~= Seq::<Seq<char>>::empty());
        }
        if p.as_str().unicode_len() > 0 {
            let tok = p.clone();
            proof {
                assert((out@ + seq![tok]).map_values(|q: String| q@) =~= out@.map_values(
                    |q: String| q@,
                ) + seq![tok@]);
            }
            out.push(tok);
        }
        i = i + 1;
    }
    proof {
        assert(pview.take(parts@.len() as int) =~= pview);
    }
    out
}

/// `s` with trailing whitespace removed.
pub fn trim_end(s: &str) -> (r: String)
    ensures
        r@ == trimmed_end(s@),
{
    let n = s.unicode_len();
    let mut j: usize = n;
    proof {
        assert(s@.take(n as int) =~= s@);
    }
    loop
        invariant
            0 <= j <= n,
            n == s@.len(),
            trimmed_end(s@) == trimmed_end(s@.take(j as int)),
        ensures
            0 <= j <= n,
            trimmed_end(s@) == trimmed_end(s@.take(j as int)),
            j == 0 || !is_ws(s@[j - 1]),
        decreases j,
    {
        if j == 0 {
            break;
        }
        let c = s.get_char(j - 1);
        if !(c == ' ' || c == '\t' || c == '\r') {
            break;
        }
        proof {
            assert(s@.take(j as int).last() == s@[j - 1]);
            assert(s@.take(j as int).drop_last() =~= s@.take(j - 1));
        }
        j = j - 1;
    }
    let r = s.substring_char(0, j).to_owned();
    proof {
        assert(s@.take(j as int) =~= s@.subrange(0, j as int));
        if j > 0 {
            assert(!is_ws(s@.take(j as int).last()));
        }
    }
    r
}

/// The character for one decimal digit.
pub open spec fn digit_char(d: int) -> char {
    if d == 0 {
        '0'
    } else if d == 1 {
        '1'
    } else if d == 2 {
        '2'
    } else if d == 3 {
        '3'
    } else if d == 4 {
        '4'
    } else if d == 5 {
        '5'
    } else if d == 6 {
        '6'
    } else if d == 7 {
        '7'
    } else if d == 8 {
        '8'
    } else {
        '9'
    }
}

/// The decimal rendering of `n`, without leading zeroes.
pub open spec fn dec_digits(n: nat) -> Seq<char>
    decreases n,
{
    if n < 10 {
        seq![digit_char(n as int)]
    } else {
        dec_digits(n / 10).push(digit_char((n % 10) as int))
    }
}

/// The one-character string of a decimal digit.
pub fn digit_str(d: u64) -> (r: &'static str)
    requires
        d < 10,
    ensures
        r@ == seq![digit_char(d as int)],
{
    proof {
        reveal_strlit("0");
        reveal_strlit("1");
        reveal_strlit("2");
        reveal_strlit("3");
        reveal_strlit("4");
        reveal_strlit("5");
        reveal_strlit("6");
        reveal_strlit("7");
        reveal_strlit("8");
        reveal_strlit("9");
    }
    let r: &'static str = match d {
        0 => "0",
        1 => "1",
        2 => "2",
        3 => "3",
        4 => "4",
        5 => "5",
        6 => "6",
        7 => "7",
        8 => "8",
        _ => "9",
    };
    proof {
        assert(r@ =~= seq![digit_char(d as int)]);
    }
    r
}

/// Append the decimal rendering of `n` to `out`.
pub fn push_dec(out: &mut String, n: u64)
    ensures
        final (out)@ == old(out)@ + dec_digits(n as nat),
    decreases n,
{
    if n < 10 {
        out.append(digit_str(n));
    } else {
        push_dec(out, n / 10);
        out.append(digit_str(n % 10));
        proof {
            assert(old(out)@ + dec_digits((n / 10) as nat) + seq![digit_char((n % 10) as int)]
                =~= old(out)@ + dec_digits(n as nat));
        }
    }
}

/// Digit strings keep a non-negative value.
pub proof fn lemma_digits_val_nonneg(s: Seq<char>)
    requires
        all_digits(s),
    ensures
        digits_val(s) >= 0,
    decreases s.len(),
{
    if s.len() > 0 {
        assert(all_digits(s.drop_last()));
        lemma_digits_val_nonneg(s.drop_last());
    }
}

/// Read an unsigned decimal integer, rejecting empty or non-digit input
/// and values above `cap`.
pub fn parse_uint(s: &str, cap: u64) -> (r: Option<u64>)
    requires
        cap <= 0x0001_0000_0000_0000,
    ensures
        match r {
            Some(v) => s@.len() > 0 && all_digits(s@) && v == digits_val(s@) && v <= cap,
            None => s@.len() == 0 || !all_digits(s@) || digits_val(s@) > cap,
        },
{
    let n = s.unicode_len();
    if n == 0 {
        return None;
    }
    let mut acc: u64 = 0;
    let mut over: bool = false;
    let mut i: usize = 0;
    proof {
        assert(s@.take(0) =~= Seq::<char>::empty());
    }
    while i < n
        invariant
            0 <= i <= n,
            n == s@.len(),
            cap <= 0x0001_0000_0000_0000,
            forall|j: int| 0 <= j < i ==> is_digit(s@[j]),
            !over ==> acc == digits_val(s@.take(i as int)) && acc <= cap,
            over ==> digits_val(s@.take(i as int)) > cap,
        decreases n - i,
    {
        let c = s.get_char(i);
        let cu = c as u32;
        if cu < 48 || cu > 57 {
            return None;
        }
        let d = (cu - 48) as u64;
        proof {
            assert(s@.take(i + 1).drop_last() =~= s@.take(i as int));
            assert(s@.take(i + 1).last() == s@[i as int]);
            assert(all_digits(s@.take(i as int)));
            lemma_digits_val_nonneg(s@.take(i as int));
        }
        if !over {
            let next = acc * 10 + d;
            if next > cap {
                over = true;
            } else {
                acc = next;
            }
        }
        i = i + 1;
    }
    proof {
        assert(s@.take(n as int) =~= s@);
    }
    if over {
        None
    } else {
        Some(acc)
    }
}

} // verus!
