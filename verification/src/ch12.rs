//! A small grep: configuration from plain arguments, and line search
//! through borrowed text, case-sensitive or case-folded.

use crate::text::split_spec;
use vstd::prelude::*;

verus! {

/// What a search run needs. Whether the match is case-sensitive is the
/// caller's choice; parsing the arguments leaves it at its default.
#[derive(Debug)]
pub struct Config {
    pub query: String,
    pub filename: String,
    pub case_sensitive: bool,
}

impl Config {
    /// Read query and filename from an argument list whose first entry
    /// is the program name. Case sensitivity stays on; an environment
    /// override is the embedding program's affair.
    pub fn new(args: &Vec<String>) -> (r: Result<Config, &'static str>)
        ensures
            match r {
                Ok(c) => {
                    &&& args@.len() >= 3
                    &&& c.query@ == args@[1]@
                    &&& c.filename@ == args@[2]@
                    &&& c.case_sensitive == true
                },
                Err(m) => {
                    &&& args@.len() < 3
                    &&& (args@.len() < 2 ==> m@ == "no query string parameter"@)
                    &&& (args@.len() == 2 ==> m@ == "no file name parameter"@)
                },
            },
    {
        if args.len() < 2 {
            return Err("no query string parameter");
        }
        if args.len() < 3 {
            return Err("no file name parameter");
        }
        Ok(
            Config {
                query: args[1].clone(),
                filename: args[2].clone(),
                case_sensitive: true,
            },
        )
    }
}

/// A line with a stray carriage return at its end loses it.
pub open spec fn trimmed_cr(l: Seq<char>) -> Seq<char> {
    if l.len() > 0 && l.last() == '\r' {
        l.drop_last()
    } else {
        l
    }
}

/// The lines of a text: the fields around every newline, except that a
/// text ending in a newline has no final empty line, and each line
/// loses a trailing carriage return.
pub open spec fn lines_of(s: Seq<char>) -> Seq<Seq<char>> {
    let p = split_spec(s, '\n');
    let raw = if p.last().len() == 0 {
        p.drop_last()
    } else {
        p
    };
    raw.map_values(|l: Seq<char>| trimmed_cr(l))
}

/// `n` occurs contiguously somewhere in `h`.
pub open spec fn contains_sub(h: Seq<char>, n: Seq<char>) -> bool {
    exists|k: int| 0 <= k <= h.len() - n.len() && #[trigger] h.subrange(k, k + n.len()) == n
}

/// The lines of `c` that contain `q`.
pub open spec fn search_spec(q: Seq<char>, c: Seq<char>) -> Seq<Seq<char>> {
    lines_of(c).filter(|l: Seq<char>| contains_sub(l, q))
}

/// What str::to_lowercase returns: a function of the characters alone.
pub uninterp spec fn lower_of(s: Seq<char>) -> Seq<char>;

/// The lines of `c` that contain `q` up to case folding.
pub open spec fn search_ci_spec(q: Seq<char>, c: Seq<char>) -> Seq<Seq<char>> {
    lines_of(c).filter(|l: Seq<char>| contains_sub(lower_of(l), lower_of(q)))
}

/// Relies on str::to_lowercase: the lowercase equivalent of the text,
/// depending on its characters alone.
#[verifier::external_body]
fn lowercase(s: &str) -> (r: String)
    ensures
        r@ == lower_of(s@),
{
    s.to_lowercase()
}

/// Does `n` stand at offset `k` of `h`?
fn matches_at(h: &str, n: &str, k: usize) -> (b: bool)
    requires
        k + n@.len() <= h@.len(),
    ensures
        b == (h@.subrange(k as int, k + n@.len()) == n@),
{
    let m = n.unicode_len();
    let hn = h.unicode_len();
    let mut i: usize = 0;
    while i < m
        invariant
            0 <= i <= m,
            m == n@.len(),
            hn == h@.len(),
            k + m <= hn,
            forall|j: int| 0 <= j < i ==> h@[k + j] == n@[j],
        decreases m - i,
    {
        if h.get_char(k + i) != n.get_char(i) {
            proof {
                assert(h@.subrange(k as int, k + n@.len())[i as int] == h@[k + i]);
            }
            return false;
        }
        i = i + 1;
    }
    proof {
        assert(h@.subrange(k as int, k + n@.len()) =~= n@);
    }
    true
}

/// Does `h` contain `n` anywhere?
pub fn contains_str(h: &str, n: &str) -> (b: bool)
    ensures
        b == contains_sub(h@, n@),
{
    let hl = h.unicode_len();
    let nl = n.unicode_len();
    if nl > hl {
        return false;
    }
    if nl == 0 {
        proof {
            assert(h@.subrange(0, 0 + n@.len() as int) =~= n@);
        }
        return true;
    }
    let mut k: usize = 0;
    while k <= hl - nl
        invariant
            0 <= k <= hl - nl + 1,
            1 <= nl <= hl,
            hl == h@.len(),
            nl == n@.len(),
            forall|j: int| 0 <= j < k ==> #[trigger] h@.subrange(j, j + n@.len()) != n@,
        decreases hl - k,
    {
        if matches_at(h, n, k) {
            return true;
        }
        k = k + 1;
    }
    false
}

/// Split `s` at every occurrence of `sep`, as borrowed slices.
fn split_slices<'a>(s: &'a str, sep: char) -> (parts: Vec<&'a str>)
    ensures
        parts@.map_values(|p: &str| p@) == split_spec(s@, sep),
{
    let n = s.unicode_len();
    let mut out: Vec<&'a str> = Vec::new();
    let mut start: usize = 0;
    let mut i: usize = 0;
    proof {
        assert(s@.skip(0) =~= s@);
        assert(out@.map_values(|p: &str| p@) =~= Seq::<Seq<char>>::empty());
    }
    while i < n
        invariant
            0 <= start <= i <= n,
            n == s@.len(),
            forall|j: int| start <= j < i ==> s@[j] != sep,
            split_spec(s@, sep) == out@.map_values(|p: &str| p@) + split_spec(
                s@.skip(start as int),
                sep,
            ),
        decreases n - i,
    {
        let c = s.get_char(i);
        if c == sep {
            let tok = s.substring_char(start, i);
            proof {
                let tail = s@.skip(start as int);
                assert(forall|j: int| 0 <= j < i - start ==> tail[j] == s@[start + j]);
                crate::text::lemma_sep_index_of(tail, sep, i - start);
                assert(tail.take(i - start) =~= s@.subrange(start as int, i as int));
                assert(tail.skip(i - start + 1) =~= s@.skip(i + 1));
                assert((out@ + seq![tok]).map_values(|p: &str| p@) =~= out@.map_values(
                    |p: &str| p@,
                ) + seq![tok@]);
            }
            out.push(tok);
            start = i + 1;
        }
        i = i + 1;
    }
    let tok = s.substring_char(start, n);
    proof {
        let tail = s@.skip(start as int);
        assert(forall|j: int| 0 <= j < tail.len() ==> tail[j] == s@[start + j]);
        crate::text::lemma_sep_index(tail, sep);
        assert(tail =~= s@.subrange(start as int, n as int));
        assert((out@ + seq![tok]).map_values(|p: &str| p@) =~= out@.map_values(|p: &str| p@)
            + seq![tok@]);
    }
    out.push(tok);
    out
}

/// One field appended to a filtered line list: kept exactly when the
/// predicate holds of it.
proof fn lemma_filter_push(acc: Seq<Seq<char>>, x: Seq<char>, pred: spec_fn(Seq<char>) -> bool)
    ensures
        (acc + seq![x]).filter(pred) == acc.filter(pred) + (if pred(x) {
            seq![x]
        } else {
            Seq::<Seq<char>>::empty()
        }),
{
    Seq::filter_distributes_over_add(acc, seq![x], pred);
    reveal_with_fuel(Seq::filter, 2);
    assert(seq![x].drop_last() =~= Seq::<Seq<char>>::empty());
    if pred(x) {
        assert(seq![x].filter(pred) =~= seq![x]);
    } else {
        assert(seq![x].filter(pred) =~= Seq::<Seq<char>>::empty());
        assert(acc.filter(pred) + Seq::<Seq<char>>::empty() =~= acc.filter(pred));
    }
}

/// The lines of `contents` that contain `query`, in order, as borrowed
/// slices of `contents`.
pub fn search<'a>(query: &str, contents: &'a str) -> (r: Vec<&'a str>)
    ensures
        r@.map_values(|t: &str| t@) == search_spec(query@, contents@),
{
    let parts = split_slices(contents, '\n');
    let ghost pv = parts@.map_values(|p: &str| p@);
    let ghost pred = |l: Seq<char>| contains_sub(l, query@);
    let total = parts.len();
    proof {
        assert(pv.len() == parts@.len());
        assert(forall|i: int| 0 <= i < parts@.len() ==> pv[i] == parts@[i]@);
        assert(pv.len() >= 1) by {
            crate::text::lemma_sep_index(contents@, '\n');
        }
    }
    let count = if parts[total - 1].unicode_len() == 0 {
        total - 1
    } else {
        total
    };
    let ghost raw = if pv.last().len() == 0 {
        pv.drop_last()
    } else {
        pv
    };
    proof {
        assert(raw =~= pv.take(count as int));
        assert(pv.take(0).map_values(|l: Seq<char>| trimmed_cr(l)).filter(pred)
            =~= Seq::<Seq<char>>::empty());
    }
    let mut out: Vec<&'a str> = Vec::new();
    let mut i: usize = 0;
    while i < count
        invariant
            0 <= i <= count <= total,
            total == parts@.len(),
            pv == parts@.map_values(|p: &str| p@),
            pred == (|l: Seq<char>| contains_sub(l, query@)),
            out@.map_values(|t: &str| t@) == pv.take(i as int).map_values(
                |l: Seq<char>| trimmed_cr(l),
            ).filter(pred),
        decreases count - i,
    {
        let part = parts[i];
        let pn = part.unicode_len();
        let line: &'a str = if pn > 0 && part.get_char(pn - 1) == '\r' {
            part.substring_char(0, pn - 1)
        } else {
            part
        };
        proof {
            assert(part@.subrange(0, pn - 1) =~= part@.drop_last());
            assert(line@ == trimmed_cr(pv[i as int]));
            assert(pv.take(i + 1).map_values(|l: Seq<char>| trimmed_cr(l)) =~= pv.take(
                i as int,
            ).map_values(|l: Seq<char>| trimmed_cr(l)) + seq![trimmed_cr(pv[i as int])]);
            lemma_filter_push(
                pv.take(i as int).map_values(|l: Seq<char>| trimmed_cr(l)),
                trimmed_cr(pv[i as int]),
                pred,
            );
        }
        if contains_str(line, query) {
            proof {
                assert((out@ + seq![line]).map_values(|t: &str| t@) =~= out@.map_values(
                    |t: &str| t@,
                ) + seq![line@]);
            }
            out.push(line);
        }
        i = i + 1;
    }
    proof {
        assert(out@.map_values(|t: &str| t@) =~= search_spec(query@, contents@));
    }
    out
}

/// The lines of `contents` that contain `query` up to case folding, in
/// order, as borrowed slices of `contents`.
pub fn search_case_insensitive<'a>(query: &str, contents: &'a str) -> (r: Vec<&'a str>)
    ensures
        r@.map_values(|t: &str| t@) == search_ci_spec(query@, contents@),
{
    let lowered_query = lowercase(query);
    let parts = split_slices(contents, '\n');
    let ghost pv = parts@.map_values(|p: &str| p@);
    let ghost pred = |l: Seq<char>| contains_sub(lower_of(l), lower_of(query@));
    let total = parts.len();
    proof {
        assert(pv.len() == parts@.len());
        assert(forall|i: int| 0 <= i < parts@.len() ==> pv[i] == parts@[i]@);
        assert(pv.len() >= 1) by {
            crate::text::lemma_sep_index(contents@, '\n');
        }
    }
    let count = if parts[total - 1].unicode_len() == 0 {
        total - 1
    } else {
        total
    };
    let ghost raw = if pv.last().len() == 0 {
        pv.drop_last()
    } else {
        pv
    };
    proof {
        assert(raw =~= pv.take(count as int));
        assert(pv.take(0).map_values(|l: Seq<char>| trimmed_cr(l)).filter(pred)
            =~= Seq::<Seq<char>>::empty());
    }
    let mut out: Vec<&'a str> = Vec::new();
    let mut i: usize = 0;
    while i < count
        invariant
            0 <= i <= count <= total,
            total == parts@.len(),
            pv == parts@.map_values(|p: &str| p@),
            pred == (|l: Seq<char>| contains_sub(lower_of(l), lower_of(query@))),
            lowered_query@ == lower_of(query@),
            out@.map_values(|t: &str| t@) == pv.take(i as int).map_values(
                |l: Seq<char>| trimmed_cr(l),
            ).filter(pred),
        decreases count - i,
    {
        let part = parts[i];
        let pn = part.unicode_len();
        let line: &'a str = if pn > 0 && part.get_char(pn - 1) == '\r' {
            part.substring_char(0, pn - 1)
        } else {
            part
        };
        proof {
            assert(part@.subrange(0, pn - 1) =~= part@.drop_last());
            assert(line@ == trimmed_cr(pv[i as int]));
            assert(pv.take(i + 1).map_values(|l: Seq<char>| trimmed_cr(l)) =~= pv.take(
                i as int,
            ).map_values(|l: Seq<char>| trimmed_cr(l)) + seq![trimmed_cr(pv[i as int])]);
            lemma_filter_push(
                pv.take(i as int).map_values(|l: Seq<char>| trimmed_cr(l)),
                trimmed_cr(pv[i as int]),
                pred,
            );
        }
        let lowered_line = lowercase(line);
        if contains_str(lowered_line.as_str(), lowered_query.as_str()) {
            proof {
                assert((out@ + seq![line]).map_values(|t: &str| t@) =~= out@.map_values(
                    |t: &str| t@,
                ) + seq![line@]);
            }
            out.push(line);
        }
        i = i + 1;
    }
    proof {
        assert(out@.map_values(|t: &str| t@) =~= search_ci_spec(query@, contents@));
    }
    out
}

} // verus!
