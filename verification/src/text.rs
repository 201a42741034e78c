//! Character and string utilities shared by the URI parser, the wire
//! serializer and the response parser: whitespace trimming, decimal
//! number parsing and formatting.

use vstd::prelude::*;

verus! {

/// The Unicode `White_Space` code points, the set that `char::is_whitespace`
/// recognises; `str::trim` removes exactly these from both ends.
pub open spec fn is_whitespace_char(c: char) -> bool {
    ||| c == ' '
    ||| ('\u{0009}' <= c && c <= '\u{000d}')
    ||| c == '\u{0085}'
    ||| c == '\u{00a0}'
    ||| c == '\u{1680}'
    ||| ('\u{2000}' <= c && c <= '\u{200a}')
    ||| c == '\u{2028}'
    ||| c == '\u{2029}'
    ||| c == '\u{202f}'
    ||| c == '\u{205f}'
    ||| c == '\u{3000}'
}

pub fn is_whitespace(c: char) -> (r: bool)
    ensures
        r == is_whitespace_char(c),
{
    c == ' ' || ('\u{0009}' <= c && c <= '\u{000d}') || c == '\u{0085}' || c == '\u{00a0}'
        || c == '\u{1680}' || ('\u{2000}' <= c && c <= '\u{200a}') || c == '\u{2028}'
        || c == '\u{2029}' || c == '\u{202f}' || c == '\u{205f}' || c == '\u{3000}'
}

pub open spec fn is_digit_char(c: char) -> bool {
    '0' <= c && c <= '9'
}

pub open spec fn digit_val(c: char) -> int {
    c as int - '0' as int
}

pub open spec fn all_digits(s: Seq<char>) -> bool {
    forall|i: int| 0 <= i < s.len() ==> is_digit_char(#[trigger] s[i])
}

/// The numeric value of a sequence of decimal digits.
pub open spec fn dec_val(s: Seq<char>) -> int
    decreases s.len(),
{
    if s.len() == 0 {
        0
    } else {
        dec_val(s.drop_last()) * 10 + digit_val(s.last())
    }
}

/// The value that `str::parse` gives an unsigned decimal string: an optional
/// leading `+`, then one or more digits; `None` on any other shape.
/// The value is unbounded here; each caller bounds it by its own type.
pub open spec fn spec_dec_value(s: Seq<char>) -> Option<int> {
    let body = if s.len() >= 1 && s[0] == '+' {
        s.subrange(1, s.len() as int)
    } else {
        s
    };
    if body.len() == 0 || !all_digits(body) {
        None
    } else {
        Some(dec_val(body))
    }
}

/// A parsed decimal value is never negative.
pub proof fn lemma_dec_value_nonneg(s: Seq<char>)
    ensures
        spec_dec_value(s) is Some ==> spec_dec_value(s).unwrap() >= 0,
{
    let body = if s.len() >= 1 && s[0] == '+' {
        s.subrange(1, s.len() as int)
    } else {
        s
    };
    if spec_dec_value(s) is Some {
        lemma_dec_val_nonneg(body);
    }
}

proof fn lemma_dec_val_nonneg(s: Seq<char>)
    requires
        all_digits(s),
    ensures
        dec_val(s) >= 0,
    decreases s.len(),
{
    if s.len() > 0 {
        assert(all_digits(s.drop_last()));
        lemma_dec_val_nonneg(s.drop_last());
    }
}

/// Extending a digit string on the right never lowers its value.
proof fn lemma_dec_val_prefix(s: Seq<char>, i: int)
    requires
        all_digits(s),
        0 <= i <= s.len(),
    ensures
        dec_val(s.subrange(0, i)) <= dec_val(s),
    decreases s.len() - i,
{
    if i < s.len() {
        let t = s.subrange(0, i + 1);
        assert(all_digits(t));
        assert(t.drop_last() =~= s.subrange(0, i));
        lemma_dec_val_nonneg(s.subrange(0, i));
        assert(dec_val(s.subrange(0, i)) <= dec_val(t));
        lemma_dec_val_prefix(s, i + 1);
        assert(s.subrange(0, s.len() as int) =~= s);
    } else {
        assert(s.subrange(0, i) =~= s);
    }
}

/// Parses an unsigned decimal string into a `u16`, exactly as `str::parse`
/// would: an optional leading `+`, then one or more digits, and the value
/// must fit.
pub fn parse_u16(s: &str) -> (r: Option<u16>)
    ensures
        r == match spec_dec_value(s@) {
            Some(v) => if v <= u16::MAX { Some(v as u16) } else { None::<u16> },
            None => None::<u16>,
        },
{
    let n = s.unicode_len();
    let start: usize = if n >= 1 && s.get_char(0) == '+' {
        1
    } else {
        0
    };
    let ghost body = if s@.len() >= 1 && s@[0] == '+' {
        s@.subrange(1, s@.len() as int)
    } else {
        s@
    };
    proof {
        assert(s@.subrange(0, s@.len() as int) =~= s@);
    }
    if n == start {
        return None;
    }
    let mut acc: u16 = 0;
    let mut i: usize = start;
    while i < n
        invariant
            start <= i <= n,
            n == s@.len(),
            body == (if s@.len() >= 1 && s@[0] == '+' {
                s@.subrange(1, s@.len() as int)
            } else {
                s@
            }),
            body == s@.subrange(start as int, n as int),
            all_digits(s@.subrange(start as int, i as int)),
            acc == dec_val(s@.subrange(start as int, i as int)),
        decreases n - i,
    {
        let c = s.get_char(i);
        if !('0' <= c && c <= '9') {
            assert(!all_digits(body)) by {
                assert(body[i - start] == s@[i as int]);
            }
            return None;
        }
        let d: u16 = (c as u32 as u16) - 48;
        proof {
            lemma_dec_val_nonneg(s@.subrange(start as int, i as int));
        }
        if acc > (u16::MAX - d) / 10 {
            proof {
                let p = s@.subrange(start as int, i as int + 1);
                assert(p.drop_last() =~= s@.subrange(start as int, i as int));
                assert(dec_val(p) > u16::MAX);
                assert(p =~= body.subrange(0, i - start + 1));
                if all_digits(body) {
                    lemma_dec_val_prefix(body, i - start + 1);
                }
            }
            return None;
        }
        let ghost p = s@.subrange(start as int, i as int + 1);
        proof {
            assert(p.drop_last() =~= s@.subrange(start as int, i as int));
        }
        acc = acc * 10 + d;
        i += 1;
    }
    proof {
        assert(s@.subrange(start as int, n as int) =~= body);
    }
    Some(acc)
}

/// Parses an unsigned decimal string into a `usize`, with the same grammar
/// as [`parse_u16`].
pub fn parse_usize(s: &str) -> (r: Option<usize>)
    ensures
        r == match spec_dec_value(s@) {
            Some(v) => if v <= usize::MAX { Some(v as usize) } else { None::<usize> },
            None => None::<usize>,
        },
{
    let n = s.unicode_len();
    let start: usize = if n >= 1 && s.get_char(0) == '+' {
        1
    } else {
        0
    };
    let ghost body = if s@.len() >= 1 && s@[0] == '+' {
        s@.subrange(1, s@.len() as int)
    } else {
        s@
    };
    proof {
        assert(s@.subrange(0, s@.len() as int) =~= s@);
    }
    if n == start {
        return None;
    }
    let mut acc: usize = 0;
    let mut i: usize = start;
    while i < n
        invariant
            start <= i <= n,
            n == s@.len(),
            body == (if s@.len() >= 1 && s@[0] == '+' {
                s@.subrange(1, s@.len() as int)
            } else {
                s@
            }),
            body == s@.subrange(start as int, n as int),
            all_digits(s@.subrange(start as int, i as int)),
            acc == dec_val(s@.subrange(start as int, i as int)),
        decreases n - i,
    {
        let c = s.get_char(i);
        if !('0' <= c && c <= '9') {
            assert(!all_digits(body)) by {
                assert(body[i - start] == s@[i as int]);
            }
            return None;
        }
        let d: usize = ((c as u32 as u8) - 48) as usize;
        proof {
            lemma_dec_val_nonneg(s@.subrange(start as int, i as int));
        }
        if acc > (usize::MAX - d) / 10 {
            proof {
                let p = s@.subrange(start as int, i as int + 1);
                assert(p.drop_last() =~= s@.subrange(start as int, i as int));
                assert(dec_val(p) > usize::MAX);
                assert(p =~= body.subrange(0, i - start + 1));
                if all_digits(body) {
                    lemma_dec_val_prefix(body, i - start + 1);
                }
            }
            return None;
        }
        let ghost p = s@.subrange(start as int, i as int + 1);
        proof {
            assert(p.drop_last() =~= s@.subrange(start as int, i as int));
        }
        acc = acc * 10 + d;
        i += 1;
    }
    proof {
        assert(s@.subrange(start as int, n as int) =~= body);
    }
    Some(acc)
}

/// A string without the leading whitespace that `str::trim` removes.
pub open spec fn trim_start_spec(s: Seq<char>) -> Seq<char>
    decreases s.len(),
{
    if s.len() == 0 {
        s
    } else if is_whitespace_char(s[0]) {
        trim_start_spec(s.subrange(1, s.len() as int))
    } else {
        s
    }
}

pub open spec fn trim_end_spec(s: Seq<char>) -> Seq<char>
    decreases s.len(),
{
    if s.len() == 0 {
        s
    } else if is_whitespace_char(s.last()) {
        trim_end_spec(s.drop_last())
    } else {
        s
    }
}

/// What `str::trim` returns: the string with leading and trailing
/// whitespace removed.
pub open spec fn trim_spec(s: Seq<char>) -> Seq<char> {
    trim_end_spec(trim_start_spec(s))
}

proof fn lemma_trim_start_skip(s: Seq<char>, i: int)
    requires
        0 <= i <= s.len(),
        forall|j: int| 0 <= j < i ==> is_whitespace_char(#[trigger] s[j]),
        i < s.len() ==> !is_whitespace_char(s[i]),
    ensures
        trim_start_spec(s) == s.subrange(i, s.len() as int),
    decreases i,
{
    if i == 0 {
        assert(s.subrange(0, s.len() as int) =~= s);
    } else {
        let t = s.subrange(1, s.len() as int);
        lemma_trim_start_skip(t, i - 1);
        assert(t.subrange(i - 1, t.len() as int) =~= s.subrange(i, s.len() as int));
    }
}

proof fn lemma_trim_end_take(s: Seq<char>, i: int)
    requires
        0 <= i <= s.len(),
        forall|j: int| i <= j < s.len() ==> is_whitespace_char(#[trigger] s[j]),
        i > 0 ==> !is_whitespace_char(s[i - 1]),
    ensures
        trim_end_spec(s) == s.subrange(0, i),
    decreases s.len() - i,
{
    if i == s.len() {
        assert(s.subrange(0, s.len() as int) =~= s);
    } else {
        let t = s.drop_last();
        lemma_trim_end_take(t, i);
        assert(t.subrange(0, i) =~= s.subrange(0, i));
    }
}

/// Trimming never lengthens a string.
pub proof fn lemma_trim_len(s: Seq<char>)
    ensures
        trim_spec(s).len() <= s.len(),
{
    lemma_trim_start_len(s);
    lemma_trim_end_len(trim_start_spec(s));
}

proof fn lemma_trim_start_len(s: Seq<char>)
    ensures
        trim_start_spec(s).len() <= s.len(),
    decreases s.len(),
{
    if s.len() > 0 && is_whitespace_char(s[0]) {
        lemma_trim_start_len(s.subrange(1, s.len() as int));
    }
}

proof fn lemma_trim_end_len(s: Seq<char>)
    ensures
        trim_end_spec(s).len() <= s.len(),
    decreases s.len(),
{
    if s.len() > 0 && is_whitespace_char(s.last()) {
        lemma_trim_end_len(s.drop_last());
    }
}

/// A string that trimming leaves alone has no whitespace at either end.
pub proof fn lemma_trim_identity_endpoints(s: Seq<char>)
    requires
        trim_spec(s) == s,
    ensures
        s.len() > 0 ==> !is_whitespace_char(s[0]),
        s.len() > 0 ==> !is_whitespace_char(s.last()),
{
    if s.len() > 0 {
        if is_whitespace_char(s[0]) {
            let t = s.subrange(1, s.len() as int);
            assert(trim_spec(s) == trim_spec(t));
            lemma_trim_len(t);
        } else {
            assert(trim_start_spec(s) == s);
            if is_whitespace_char(s.last()) {
                assert(trim_end_spec(s) == trim_end_spec(s.drop_last()));
                lemma_trim_end_len(s.drop_last());
            }
        }
    }
}

/// What `str::trim` does, as an operation on `&str`.
pub fn trim(s: &str) -> (r: &str)
    ensures
        r@ == trim_spec(s@),
{
    let n = s.unicode_len();
    let mut a: usize = 0;
    while a < n && is_whitespace(s.get_char(a))
        invariant
            0 <= a <= n,
            n == s@.len(),
            forall|j: int| 0 <= j < a ==> is_whitespace_char(#[trigger] s@[j]),
        decreases n - a,
    {
        a += 1;
    }
    let mut b: usize = n;
    while b > a && is_whitespace(s.get_char(b - 1))
        invariant
            a <= b <= n,
            n == s@.len(),
            forall|j: int| b <= j < n ==> is_whitespace_char(#[trigger] s@[j]),
        decreases b,
    {
        b -= 1;
    }
    proof {
        lemma_trim_start_skip(s@, a as int);
        let t = s@.subrange(a as int, s@.len() as int);
        lemma_trim_end_take(t, b - a);
        assert(t.subrange(0, b - a) =~= s@.subrange(a as int, b as int));
    }
    s.substring_char(a, b)
}

pub open spec fn digit_char(d: int) -> char {
    ((48 + d) as u8) as char
}

/// The decimal digit characters of a non-negative integer, most significant
/// first.
pub open spec fn dec_of(n: int) -> Seq<char>
    decreases n,
{
    if n < 10 {
        seq![digit_char(n)]
    } else {
        dec_of(n / 10) + seq![digit_char(n % 10)]
    }
}

/// What decimal formatting produces: at least one character, all digits,
/// and parsing it back gives the number.
pub proof fn lemma_dec_of_value(n: int)
    requires
        0 <= n,
    ensures
        dec_of(n).len() >= 1,
        all_digits(dec_of(n)),
        dec_val(dec_of(n)) == n,
        spec_dec_value(dec_of(n)) == Some(n),
    decreases n,
{
    if n < 10 {
        let s = dec_of(n);
        assert(s == seq![digit_char(n)]);
        assert(s.drop_last() =~= Seq::<char>::empty());
        assert(dec_val(Seq::<char>::empty()) == 0);
        assert(dec_val(s) == digit_val(digit_char(n)));
    } else {
        lemma_dec_of_value(n / 10);
        let s = dec_of(n);
        assert(s == dec_of(n / 10) + seq![digit_char(n % 10)]);
        assert(s.drop_last() =~= dec_of(n / 10));
        assert(s.last() == digit_char(n % 10));
        assert(dec_val(s) == dec_val(dec_of(n / 10)) * 10 + digit_val(digit_char(n % 10)));
        assert(forall|i: int| 0 <= i < s.len() ==> is_digit_char(#[trigger] s[i])) by {
            assert(forall|i: int|
                0 <= i < dec_of(n / 10).len() ==> s[i] == #[trigger] dec_of(n / 10)[i]);
        }
    }
    assert(dec_of(n)[0] != '+');
}

/// Relies on `String::push`: appends the given character to the end of the
/// string.
#[verifier::external_body]
pub fn push_char(s: &mut String, c: char)
    ensures
        final(s)@ == old(s)@.push(c),
{
    s.push(c);
}

/// Writes a `u16` in decimal, as `Display` would.
pub fn u16_to_string(n: u16) -> (r: String)
    ensures
        r@ == dec_of(n as int),
    decreases n,
{
    if n < 10 {
        let mut s = String::new();
        push_char(&mut s, (48 + n as u8) as char);
        proof {
            assert(s@ =~= dec_of(n as int));
        }
        s
    } else {
        let mut s = u16_to_string(n / 10);
        push_char(&mut s, (48 + (n % 10) as u8) as char);
        proof {
            assert(s@ =~= dec_of(n as int));
        }
        s
    }
}

} // verus!
