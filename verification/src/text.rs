//! Whole numbers in text: reading a `u32` as `str::trim` then
//! `str::parse::<u32>` do, and writing one in decimal as `u32::to_string` does.

use vstd::prelude::*;
use vstd::string::StrSliceExecFns;

verus! {

/// The characters with the Unicode `White_Space` property (`char::is_whitespace`).
pub open spec fn is_whitespace(c: char) -> bool {
    ||| '\u{9}' <= c <= '\u{d}'
    ||| c == ' '
    ||| c == '\u{85}'
    ||| c == '\u{a0}'
    ||| c == '\u{1680}'
    ||| '\u{2000}' <= c <= '\u{200a}'
    ||| c == '\u{2028}'
    ||| c == '\u{2029}'
    ||| c == '\u{202f}'
    ||| c == '\u{205f}'
    ||| c == '\u{3000}'
}

pub open spec fn trim_start(s: Seq<char>) -> Seq<char>
    decreases s.len(),
{
    if s.len() > 0 && is_whitespace(s[0]) {
        trim_start(s.drop_first())
    } else {
        s
    }
}

pub open spec fn trim_end(s: Seq<char>) -> Seq<char>
    decreases s.len(),
{
    if s.len() > 0 && is_whitespace(s.last()) {
        trim_end(s.drop_last())
    } else {
        s
    }
}

/// `s` without leading and trailing whitespace.
pub open spec fn trim(s: Seq<char>) -> Seq<char> {
    trim_end(trim_start(s))
}

pub open spec fn is_digit(c: char) -> bool {
    '0' <= c <= '9'
}

pub open spec fn digit_value(c: char) -> nat {
    (c as int - '0' as int) as nat
}

pub open spec fn all_digits(s: Seq<char>) -> bool {
    forall|i: int| 0 <= i < s.len() ==> #[trigger] is_digit(s[i])
}

/// The number that the decimal digits `s` write.
pub open spec fn digits_value(s: Seq<char>) -> nat
    decreases s.len(),
{
    if s.len() == 0 {
        0
    } else {
        digits_value(s.drop_last()) * 10 + digit_value(s.last())
    }
}

/// What `str::parse::<u32>` gives: an optional `+`, then one or more
/// decimal digits whose value fits in a `u32`.
pub open spec fn spec_parse_u32(s: Seq<char>) -> Option<u32> {
    let body = if s.len() > 0 && s[0] == '+' {
        s.drop_first()
    } else {
        s
    };
    if body.len() > 0 && all_digits(body) && digits_value(body) <= u32::MAX {
        Some(digits_value(body) as u32)
    } else {
        None
    }
}

pub open spec fn digit_char(d: nat) -> char {
    ('0' as int + d) as char
}

/// The decimal writing of `n`, without leading zeros.
pub open spec fn decimal(n: nat) -> Seq<char>
    decreases n,
{
    if n < 10 {
        seq![digit_char(n)]
    } else {
        decimal(n / 10).push(digit_char(n % 10))
    }
}

proof fn lemma_digits_value_grows(s: Seq<char>, c: char)
    requires
        is_digit(c),
    ensures
        digits_value(s.push(c)) >= digits_value(s),
        digits_value(s.push(c)) == digits_value(s) * 10 + digit_value(c),
{
    assert(s.push(c).drop_last() =~= s);
}

proof fn lemma_digits_value_prefix(s: Seq<char>, i: int)
    requires
        0 <= i <= s.len(),
        all_digits(s),
    ensures
        digits_value(s.subrange(0, i)) <= digits_value(s),
    decreases s.len() - i,
{
    if i < s.len() {
        lemma_digits_value_prefix(s, i + 1);
        assert(s.subrange(0, i + 1) =~= s.subrange(0, i).push(s[i]));
        lemma_digits_value_grows(s.subrange(0, i), s[i]);
    } else {
        assert(s.subrange(0, i) =~= s);
    }
}

/// Reads `value` as a whole number after trimming whitespace; `None` when it
/// is not one or does not fit in a `u32`.
pub fn parse_u32(value: &str, _label: &str) -> (r: Option<u32>)
    ensures
        r == spec_parse_u32(trim(value@)),
{
    let n = value.unicode_len();
    let mut lo: usize = 0;
    assert(value@.subrange(0, n as int) =~= value@);
    while lo < n && is_whitespace_char(value.get_char(lo))
        invariant
            n == value@.len(),
            lo <= n,
            trim_start(value@) == trim_start(value@.subrange(lo as int, n as int)),
        decreases n - lo,
    {
        assert(value@.subrange(lo as int, n as int).drop_first() =~= value@.subrange(
            lo + 1,
            n as int,
        ));
        lo = lo + 1;
    }
    assert(trim_start(value@) == value@.subrange(lo as int, n as int));
    let mut hi: usize = n;
    while hi > lo && is_whitespace_char(value.get_char(hi - 1))
        invariant
            n == value@.len(),
            lo <= hi <= n,
            trim(value@) == trim_end(value@.subrange(lo as int, hi as int)),
        decreases hi - lo,
    {
        assert(value@.subrange(lo as int, hi as int).drop_last() =~= value@.subrange(
            lo as int,
            hi - 1,
        ));
        hi = hi - 1;
    }
    let ghost t = value@.subrange(lo as int, hi as int);
    assert(trim(value@) == t);
    let mut start = lo;
    if start < hi && value.get_char(start) == '+' {
        start = start + 1;
    }
    let ghost body = value@.subrange(start as int, hi as int);
    assert(body =~= if t.len() > 0 && t[0] == '+' {
        t.drop_first()
    } else {
        t
    });
    if start == hi {
        return None;
    }
    let mut total: u64 = 0;
    let mut i = start;
    while i < hi
        invariant
            n == value@.len(),
            start <= i <= hi <= n,
            body == value@.subrange(start as int, hi as int),
            total == digits_value(body.subrange(0, i - start)),
            total <= u32::MAX,
            all_digits(body.subrange(0, i - start)),
            body.len() > 0,
            spec_parse_u32(trim(value@)) == (if all_digits(body) && digits_value(body) <= u32::MAX {
                Some(digits_value(body) as u32)
            } else {
                None
            }),
        decreases hi - i,
    {
        let c = value.get_char(i);
        if !('0' <= c && c <= '9') {
            assert(!is_digit(body[i - start]));
            return None;
        }
        let d = (c as u32 - '0' as u32) as u64;
        proof {
            assert(body.subrange(0, i + 1 - start) =~= body.subrange(0, i - start).push(c));
            lemma_digits_value_grows(body.subrange(0, i - start), c);
        }
        total = total * 10 + d;
        if total > 4294967295 {
            proof {
                if all_digits(body) {
                    lemma_digits_value_prefix(body, i + 1 - start);
                }
            }
            return None;
        }
        i = i + 1;
    }
    assert(body.subrange(0, i - start) =~= body);
    Some(total as u32)
}

/// Reads `value` as `str::parse::<u32>` does, without trimming it.
pub fn parse_u32_plain(value: &str) -> (r: Option<u32>)
    ensures
        r == spec_parse_u32(value@),
{
    let n = value.unicode_len();
    if n > 0 && (is_whitespace_char(value.get_char(0)) || is_whitespace_char(value.get_char(n - 1))) {
        proof {
            let s = value@;
            let body = if s.len() > 0 && s[0] == '+' {
                s.drop_first()
            } else {
                s
            };
            if body.len() > 0 {
                if is_whitespace(s[0]) {
                    assert(body[0] == s[0]);
                    assert(!is_digit(body[0]));
                } else {
                    assert(body[body.len() - 1] == s[s.len() - 1]);
                    assert(!is_digit(body[body.len() - 1]));
                }
            }
        }
        return None;
    }
    proof {
        let s = value@;
        assert(trim_start(s) == s);
        assert(trim_end(s) == s);
    }
    parse_u32(value, "")
}

/// `char::is_whitespace`, for the characters `is_whitespace` lists.
pub(crate) fn is_whitespace_char(c: char) -> (r: bool)
    ensures
        r == is_whitespace(c),
{
    ('\u{9}' <= c && c <= '\u{d}') || c == ' ' || c == '\u{85}' || c == '\u{a0}' || c == '\u{1680}'
        || ('\u{2000}' <= c && c <= '\u{200a}') || c == '\u{2028}' || c == '\u{2029}'
        || c == '\u{202f}' || c == '\u{205f}' || c == '\u{3000}'
}

/// Appends one character (`String::push`).
#[verifier::external_body]
pub(crate) fn push_char(s: &mut String, c: char)
    ensures
        final(s)@ == old(s)@.push(c),
{
    s.push(c);
}

fn digit_to_char(d: u32) -> (c: char)
    requires
        d < 10,
    ensures
        c == digit_char(d as nat),
{
    if d == 0 { '0' } else if d == 1 { '1' } else if d == 2 { '2' } else if d == 3 { '3' } else if d
        == 4 { '4' } else if d == 5 { '5' } else if d == 6 { '6' } else if d == 7 { '7' } else if d
        == 8 { '8' } else { '9' }
}

fn write_decimal(n: u64, s: &mut String)
    ensures
        final(s)@ == old(s)@ + decimal(n as nat),
    decreases n,
{
    if n >= 10 {
        write_decimal(n / 10, s);
    }
    push_char(s, digit_to_char((n % 10) as u32));
    proof {
        if n >= 10 {
            assert(old(s)@ + decimal((n / 10) as nat) + seq![digit_char((n % 10) as nat)] =~= old(s)@
                + decimal(n as nat));
        } else {
            assert(old(s)@.push(digit_char(n as nat)) =~= old(s)@ + decimal(n as nat));
        }
    }
}

/// Writes `n` in decimal, as `u32::to_string` does.
pub fn u32_to_decimal(n: u32) -> (s: String)
    ensures
        s@ == decimal(n as nat),
{
    let mut s = String::new();
    write_decimal(n as u64, &mut s);
    assert(s@ =~= decimal(n as nat));
    s
}

/// Writes `n` in decimal, as `u64::to_string` does.
pub fn u64_to_decimal(n: u64) -> (s: String)
    ensures
        s@ == decimal(n as nat),
{
    let mut s = String::new();
    write_decimal(n, &mut s);
    assert(s@ =~= decimal(n as nat));
    s
}

/// An integer in decimal, with a minus sign where it is negative.
pub open spec fn signed_decimal(n: int) -> Seq<char> {
    if n < 0 {
        seq!['-'] + decimal((-n) as nat)
    } else {
        decimal(n as nat)
    }
}

/// Writes `n` in decimal, as `i32::to_string` does.
pub fn i32_to_decimal(n: i32) -> (s: String)
    ensures
        s@ == signed_decimal(n as int),
{
    let mut s = String::new();
    if n < 0 {
        push_char(&mut s, '-');
        let magnitude: u64 = (0i64 - n as i64) as u64;
        write_decimal(magnitude, &mut s);
        assert(s@ =~= seq!['-'] + decimal((-(n as int)) as nat));
    } else {
        write_decimal(n as u64, &mut s);
        assert(s@ =~= decimal(n as nat));
    }
    s
}

proof fn lemma_decimal(n: nat)
    ensures
        decimal(n).len() > 0,
        all_digits(decimal(n)),
        digits_value(decimal(n)) == n,
    decreases n,
{
    if n >= 10 {
        lemma_decimal(n / 10);
        assert(decimal(n).drop_last() =~= decimal(n / 10));
        assert(digit_value(digit_char(n % 10)) == n % 10);
        assert(decimal(n).last() == digit_char(n % 10));
        assert(digits_value(decimal(n)) == digits_value(decimal(n / 10)) * 10 + digit_value(
            digit_char(n % 10),
        ));
        assert(n == (n / 10) * 10 + n % 10);
        assert forall|i: int| 0 <= i < decimal(n).len() implies #[trigger] is_digit(decimal(n)[i]) by {
            if i < decimal(n).len() - 1 {
                assert(decimal(n)[i] == decimal(n / 10)[i]);
            }
        }
    } else {
        assert(seq![digit_char(n)].drop_last() =~= Seq::<char>::empty());
        assert(digit_value(digit_char(n)) == n);
        assert(decimal(n) == seq![digit_char(n)]);
        assert(decimal(n).last() == digit_char(n));
        assert(digits_value(decimal(n)) == digits_value(Seq::<char>::empty()) * 10 + digit_value(
            digit_char(n),
        ));
    }
}

/// Reading back what `u32_to_decimal` writes gives the same number.
pub proof fn lemma_parse_decimal_round_trip(n: u32)
    ensures
        spec_parse_u32(trim(decimal(n as nat))) == Some(n),
{
    let s = decimal(n as nat);
    lemma_decimal(n as nat);
    assert(is_digit(s[0]));
    assert(is_digit(s.last()));
    assert(trim_start(s) == s);
    assert(trim_end(s) == s);
}

} // verus!
