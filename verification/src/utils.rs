//! String splitting helpers: splitting at the first occurrence of a
//! pattern, into a fixed number of parts, and combined with numeric
//! parsing.

use vstd::prelude::*;

use crate::text::{parse_u16, spec_dec_value};

verus! {

/// The pattern occurs in `s` at position `i`.
pub open spec fn match_at(s: Seq<char>, pat: Seq<char>, i: int) -> bool {
    0 <= i && i + pat.len() <= s.len() && s.subrange(i, i + pat.len()) == pat
}

pub open spec fn find_from(s: Seq<char>, pat: Seq<char>, from: int) -> Option<int>
    decreases s.len() - from,
{
    if from + pat.len() > s.len() {
        None
    } else if match_at(s, pat, from) {
        Some(from)
    } else {
        proof {
            if pat.len() == 0 && 0 <= from {
                assert(s.subrange(from, from + pat.len()) =~= pat);
            }
        }
        find_from(s, pat, from + 1)
    }
}

/// The position of the first occurrence of `pat` in `s`, as `str::find`
/// computes it (by characters rather than bytes).
pub open spec fn spec_find(s: Seq<char>, pat: Seq<char>) -> Option<int> {
    find_from(s, pat, 0)
}

/// What a successful or failed search means: a found position is a match,
/// nothing before it matches, and a failed search has no match at all.
pub proof fn lemma_find_from_props(s: Seq<char>, pat: Seq<char>, from: int)
    requires
        0 <= from,
    ensures
        match find_from(s, pat, from) {
            Some(i) => from <= i && match_at(s, pat, i) && forall|j: int|
                from <= j < i ==> !match_at(s, pat, j),
            None => forall|j: int| from <= j ==> !match_at(s, pat, j),
        },
    decreases s.len() - from,
{
    if from + pat.len() > s.len() {
    } else if match_at(s, pat, from) {
    } else {
        if pat.len() == 0 {
            assert(s.subrange(from, from + pat.len()) =~= pat);
        }
        lemma_find_from_props(s, pat, from + 1);
    }
}

/// A position that matches, with no match before it, is what the search
/// finds.
pub proof fn lemma_find_first(s: Seq<char>, pat: Seq<char>, i: int)
    requires
        match_at(s, pat, i),
        forall|j: int| 0 <= j < i ==> !match_at(s, pat, j),
    ensures
        spec_find(s, pat) == Some(i),
{
    lemma_find_skip(s, pat, i);
}

/// A string with no match anywhere is searched in vain.
pub proof fn lemma_find_none(s: Seq<char>, pat: Seq<char>)
    requires
        forall|j: int| 0 <= j ==> !match_at(s, pat, j),
    ensures
        spec_find(s, pat) is None,
{
    lemma_spec_find_props(s, pat);
}

pub proof fn lemma_spec_find_props(s: Seq<char>, pat: Seq<char>)
    ensures
        match spec_find(s, pat) {
            Some(i) => 0 <= i && match_at(s, pat, i) && forall|j: int|
                0 <= j < i ==> !match_at(s, pat, j),
            None => forall|j: int| 0 <= j ==> !match_at(s, pat, j),
        },
{
    lemma_find_from_props(s, pat, 0);
}

proof fn lemma_find_skip(s: Seq<char>, pat: Seq<char>, i: int)
    requires
        0 <= i,
        forall|j: int| 0 <= j < i ==> !match_at(s, pat, j),
    ensures
        spec_find(s, pat) == find_from(s, pat, i),
    decreases i,
{
    if i > 0 {
        lemma_find_skip(s, pat, i - 1);
    }
}

/// Whether `pat` occurs in `s` at position `i`, by character comparison.
fn matches_at(s: &str, pat: &str, i: usize, n: usize, m: usize) -> (r: bool)
    requires
        n == s@.len(),
        m == pat@.len(),
        i + m <= n,
    ensures
        r == match_at(s@, pat@, i as int),
{
    let mut j: usize = 0;
    while j < m
        invariant
            0 <= j <= m,
            n == s@.len(),
            m == pat@.len(),
            i + m <= n,
            forall|k: int| 0 <= k < j ==> s@[i + k] == pat@[k],
        decreases m - j,
    {
        if s.get_char(i + j) != pat.get_char(j) {
            assert(s@.subrange(i as int, i + m) != pat@) by {
                assert(s@.subrange(i as int, i + m)[j as int] == s@[i + j]);
            }
            return false;
        }
        j += 1;
    }
    proof {
        assert(s@.subrange(i as int, i + m) =~= pat@);
    }
    true
}

/// Character-for-character string equality.
pub fn str_eq(s: &str, t: &str) -> (r: bool)
    ensures
        r == (s@ == t@),
{
    let n = s.unicode_len();
    let m = t.unicode_len();
    if n != m {
        return false;
    }
    if matches_at(s, t, 0, n, m) {
        proof {
            assert(s@.subrange(0, m as int) =~= s@);
        }
        true
    } else {
        proof {
            assert(s@.subrange(0, m as int) =~= s@);
        }
        false
    }
}

/// Splits a string into the parts before and after the first occurrence of
/// a pattern; `None` when the pattern does not occur.
pub fn tuple_split<'a>(s: &'a str, pat: &str) -> (r: Option<(&'a str, &'a str)>)
    ensures
        match spec_find(s@, pat@) {
            Some(i) => r is Some && r.unwrap().0@ == s@.subrange(0, i) && r.unwrap().1@
                == s@.subrange(i + pat@.len(), s@.len() as int),
            None => r is None,
        },
{
    let n = s.unicode_len();
    let m = pat.unicode_len();
    if m > n {
        return None;
    }
    let mut i: usize = 0;
    while i <= n - m
        invariant
            0 <= i <= n - m + 1,
            m <= n,
            n == s@.len(),
            m == pat@.len(),
            forall|j: int| 0 <= j < i ==> !match_at(s@, pat@, j),
        decreases n - i,
    {
        if matches_at(s, pat, i, n, m) {
            proof {
                lemma_find_skip(s@, pat@, i as int);
            }
            return Some((s.substring_char(0, i), s.substring_char(i + m, n)));
        }
        proof {
            if m == 0 {
                assert(s@.subrange(i as int, i as int) =~= pat@);
            }
        }
        i += 1;
    }
    proof {
        lemma_find_skip(s@, pat@, i as int);
    }
    None
}

/// Splits a string into exactly `N` parts at the first `N - 1` occurrences
/// of a pattern; the last part keeps any further occurrences. `None` when
/// fewer than `N - 1` occurrences exist.
pub open spec fn spec_split(s: Seq<char>, pat: Seq<char>, k: nat) -> Option<Seq<Seq<char>>>
    decreases k,
{
    if k <= 1 {
        Some(seq![s])
    } else {
        match spec_find(s, pat) {
            Some(i) => match spec_split(s.subrange(i + pat.len(), s.len() as int), pat, (k - 1) as nat) {
                Some(rest) => Some(seq![s.subrange(0, i)] + rest),
                None => None,
            },
            None => None,
        }
    }
}

pub fn split<'a, const N: usize>(s: &'a str, pat: &str) -> (r: Option<Vec<&'a str>>)
    requires
        N >= 1,
    ensures
        match spec_split(s@, pat@, N as nat) {
            Some(parts) => r is Some && r.unwrap()@.len() == N && parts.len() == N && forall|k: int|
                0 <= k < N ==> r.unwrap()@[k]@ == parts[k],
            None => r is None,
        },
{
    let mut acc: Vec<&'a str> = Vec::new();
    let mut remainder: &'a str = s;
    let mut i: usize = 0;
    while i < N - 1
        invariant
            0 <= i <= N - 1,
            acc@.len() == i,
            match spec_split(remainder@, pat@, (N - i) as nat) {
                Some(tail) => spec_split(s@, pat@, N as nat) is Some && spec_split(
                    s@,
                    pat@,
                    N as nat,
                ).unwrap() == acc@.map_values(|t: &str| t@) + tail,
                None => spec_split(s@, pat@, N as nat) is None,
            },
        decreases N - i,
    {
        let ghost old_acc = acc@;
        let ghost old_rem = remainder@;
        match tuple_split(remainder, pat) {
            Some((left, right)) => {
                acc.push(left);
                remainder = right;
                proof {
                    assert(acc@.map_values(|t: &str| t@) =~= old_acc.map_values(|t: &str| t@)
                        + seq![left@]);
                    if spec_split(remainder@, pat@, (N - i - 1) as nat) is Some {
                        let tail = spec_split(remainder@, pat@, (N - i - 1) as nat).unwrap();
                        assert(spec_split(old_rem, pat@, (N - i) as nat) == Some(
                            seq![left@] + tail,
                        ));
                        assert(old_acc.map_values(|t: &str| t@) + (seq![left@] + tail)
                            =~= acc@.map_values(|t: &str| t@) + tail);
                    }
                }
            },
            None => {
                return None;
            },
        }
        i += 1;
    }
    acc.push(remainder);
    proof {
        assert(spec_split(remainder@, pat@, 1) == Some(seq![remainder@]));
        let parts = spec_split(s@, pat@, N as nat).unwrap();
        assert(parts =~= acc@.map_values(|t: &str| t@));
        let m = acc@.map_values(|t: &str| t@);
        assert(forall|k: int| 0 <= k < N ==> acc@[k]@ == #[trigger] m[k]);
    }
    Some(acc)
}

/// Splits at the first occurrence of a pattern and parses the right part as
/// a decimal port number; the left part is returned as an owned string.
pub fn tuple_split_parse(s: &str, pat: &str) -> (r: Option<(String, u16)>)
    ensures
        match spec_find(s@, pat@) {
            Some(i) => match spec_dec_value(s@.subrange(i + pat@.len(), s@.len() as int)) {
                Some(v) => if v <= u16::MAX {
                    r is Some && r.unwrap().0@ == s@.subrange(0, i) && r.unwrap().1 == v as u16
                } else {
                    r is None
                },
                None => r is None,
            },
            None => r is None,
        },
{
    match tuple_split(s, pat) {
        Some((left, right)) => match parse_u16(right) {
            Some(port) => Some((left.to_owned(), port)),
            None => None,
        },
        None => None,
    }
}

/// Splits a string into three parts at the first two occurrences of a
/// pattern.
pub fn triple_split<'a>(s: &'a str, pat: &str) -> (r: Option<(&'a str, &'a str, &'a str)>)
    ensures
        match spec_split(s@, pat@, 3) {
            Some(parts) => r is Some && r.unwrap().0@ == parts[0] && r.unwrap().1@ == parts[1]
                && r.unwrap().2@ == parts[2],
            None => r is None,
        },
{
    proof {
        reveal_with_fuel(spec_split, 4);
    }
    match tuple_split(s, pat) {
        Some((left, rest)) => match tuple_split(rest, pat) {
            Some((middle, right)) => {
                proof {
                    let i = spec_find(s@, pat@).unwrap();
                    let j = spec_find(rest@, pat@).unwrap();
                    let tail = spec_split(rest@, pat@, 2).unwrap();
                    let parts = spec_split(s@, pat@, 3).unwrap();
                    assert(tail == seq![rest@.subrange(0, j)] + seq![
                        rest@.subrange(j + pat@.len(), rest@.len() as int),
                    ]);
                    assert(parts == seq![s@.subrange(0, i)] + tail);
                    assert(parts[0] == s@.subrange(0, i));
                    assert(parts[1] == rest@.subrange(0, j));
                    assert(parts[2] == rest@.subrange(j + pat@.len(), rest@.len() as int));
                }
                Some((left, middle, right))
            },
            None => None,
        },
        None => None,
    }
}

} // verus!
