//! Recognising the text of decimal numbers.

use vstd::prelude::*;
use crate::text::{chars_of, eq_ignoring_case, same_chars_ignoring_case};

verus! {

/// Whether `c` is an ASCII digit.
pub open spec fn is_digit(c: char) -> bool {
    '0' <= c <= '9'
}

/// Whether `s` holds ASCII digits only.
pub open spec fn all_digits(s: Seq<char>) -> bool {
    forall|i: int| 0 <= i < s.len() ==> is_digit(#[trigger] s[i])
}

/// The number that the digits of `s` write in base ten.
pub open spec fn decimal_value(s: Seq<char>) -> int
    decreases s.len(),
{
    if s.len() == 0 {
        0
    } else {
        decimal_value(s.drop_last()) * 10 + (s.last() as int - '0' as int)
    }
}

/// Whether `s` starts with a sign.
pub open spec fn has_sign(s: Seq<char>) -> bool {
    s.len() > 0 && (s[0] == '+' || s[0] == '-')
}

/// `s` without its sign, if it has one.
pub open spec fn unsigned_part(s: Seq<char>) -> Seq<char> {
    if has_sign(s) {
        s.skip(1)
    } else {
        s
    }
}

/// Whether `s` writes a whole number that a signed 64-bit integer holds:
/// an optional sign, then one or more digits and nothing else, with a value
/// from -2^63 to 2^63 - 1.
pub open spec fn is_integer_text(s: Seq<char>) -> bool {
    let digits = unsigned_part(s);
    &&& digits.len() > 0
    &&& all_digits(digits)
    &&& if has_sign(s) && s[0] == '-' {
        decimal_value(digits) <= 0x8000_0000_0000_0000
    } else {
        decimal_value(digits) <= 0x7fff_ffff_ffff_ffff
    }
}

/// The end of the run of digits that starts at `from`: the first position at
/// or after `from` that holds no digit, or the length of `s`.
pub open spec fn digits_end(s: Seq<char>, from: int) -> int
    decreases s.len() - from,
{
    if 0 <= from < s.len() && is_digit(s[from]) {
        digits_end(s, from + 1)
    } else {
        from
    }
}

/// Whether `e` is an exponent: `e` or `E`, an optional sign, then one or
/// more digits and nothing else.
pub open spec fn is_exponent_text(e: Seq<char>) -> bool {
    &&& e.len() >= 2
    &&& (e[0] == 'e' || e[0] == 'E')
    &&& {
        let first = if e[1] == '+' || e[1] == '-' { 2int } else { 1int };
        first < e.len() && digits_end(e, first) == e.len()
    }
}

/// Whether `s` is an unsigned decimal number: digits with at most one
/// point among them and at least one digit in all, then an optional
/// exponent.
pub open spec fn is_decimal_text(s: Seq<char>) -> bool {
    let whole_end = digits_end(s, 0);
    let has_point = whole_end < s.len() && s[whole_end] == '.';
    let mantissa_end = if has_point { digits_end(s, whole_end + 1) } else { whole_end };
    let digit_count = if has_point { mantissa_end - 1 } else { mantissa_end };
    &&& digit_count > 0
    &&& (mantissa_end == s.len() || is_exponent_text(s.skip(mantissa_end)))
}

/// Whether `s` names infinity or the value that is not a number, in any
/// mixture of cases.
pub open spec fn is_special_text(s: Seq<char>) -> bool {
    eq_ignoring_case(s, "inf"@) || eq_ignoring_case(s, "infinity"@) || eq_ignoring_case(s, "nan"@)
}

/// Whether `s` writes a floating-point number: an optional sign, then a
/// decimal number or one of the special names.
pub open spec fn is_float_text(s: Seq<char>) -> bool {
    is_special_text(unsigned_part(s)) || is_decimal_text(unsigned_part(s))
}

/// A prefix of a run of digits writes no more than the whole run.
pub proof fn lemma_decimal_value_grows(s: Seq<char>, n: int)
    requires
        all_digits(s),
        0 <= n <= s.len(),
    ensures
        0 <= decimal_value(s.take(n)) <= decimal_value(s),
    decreases s.len(),
{
    if s.len() == 0 {
        assert(s.take(n) =~= s);
    } else if n == s.len() {
        assert(s.take(n) =~= s);
        lemma_decimal_value_grows(s.drop_last(), n - 1);
        assert(s.drop_last().take(n - 1) =~= s.drop_last());
    } else {
        lemma_decimal_value_grows(s.drop_last(), n);
        assert(s.drop_last().take(n) =~= s.take(n));
    }
}

/// Whether `text` writes a whole number that a signed 64-bit integer holds.
pub fn is_integer(text: &Vec<char>) -> (b: bool)
    ensures
        b == is_integer_text(text@),
{
    let n = text.len();
    let mut start: usize = 0;
    let mut limit: u128 = 0x7fff_ffff_ffff_ffff;
    if n > 0 && (text[0] == '+' || text[0] == '-') {
        start = 1;
        if text[0] == '-' {
            limit = 0x8000_0000_0000_0000;
        }
    }
    if start == n {
        return false;
    }
    let ghost digits = unsigned_part(text@);
    proof {
        assert(digits =~= text@.skip(start as int));
    }
    let mut value: u128 = 0;
    let mut i: usize = start;
    while i < n
        invariant
            start <= i <= n,
            n == text.len(),
            digits == text@.skip(start as int),
            digits == unsigned_part(text@),
            limit == if has_sign(text@) && text@[0] == '-' {
                0x8000_0000_0000_0000u128
            } else {
                0x7fff_ffff_ffff_ffffu128
            },
            all_digits(digits.take(i - start)),
            value == decimal_value(digits.take(i - start)),
            value <= limit <= 0x8000_0000_0000_0000,
        decreases n - i,
    {
        let c = text[i];
        proof {
            assert(digits.take(i - start + 1).drop_last() =~= digits.take(i - start));
            assert(digits[i - start] == c);
        }
        if !('0' <= c && c <= '9') {
            return false;
        }
        let d: u128 = ((c as u8) - 48) as u128;
        let next: u128 = value * 10 + d;
        if next > limit {
            proof {
                assert(next == decimal_value(digits.take(i - start + 1)));
                if all_digits(digits) {
                    lemma_decimal_value_grows(digits, i - start + 1);
                }
            }
            return false;
        }
        value = next;
        i = i + 1;
    }
    proof {
        assert(digits.take(i - start) =~= digits);
    }
    true
}

/// The end of the run of digits of `text` that starts at `from`.
pub fn scan_digits(text: &Vec<char>, from: usize) -> (end: usize)
    ensures
        end == digits_end(text@, from as int),
        from <= end,
        from <= text.len() ==> end <= text.len(),
{
    let mut i: usize = from;
    while i < text.len() && '0' <= text[i] && text[i] <= '9'
        invariant
            from <= i,
            from <= text.len() ==> i <= text.len(),
            digits_end(text@, from as int) == digits_end(text@, i as int),
        decreases text.len() - i,
    {
        i = i + 1;
    }
    i
}

/// Whether the part of `text` from `from` on is an exponent.
fn is_exponent(text: &Vec<char>, from: usize) -> (b: bool)
    requires
        from <= text.len(),
    ensures
        b == is_exponent_text(text@.skip(from as int)),
{
    let n = text.len();
    let ghost e = text@.skip(from as int);
    if n - from < 2 {
        return false;
    }
    if text[from] != 'e' && text[from] != 'E' {
        return false;
    }
    let sign = text[from + 1] == '+' || text[from + 1] == '-';
    let first: usize = if sign { from + 2 } else { from + 1 };
    if first >= n {
        return false;
    }
    let end = scan_digits(text, first);
    proof {
        lemma_digits_end_skip(text@, from as int, first - from);
    }
    end == n
}

/// A run of digits ends at the same place in a text and in what is left of
/// it after some of its first characters are dropped.
pub proof fn lemma_digits_end_skip(s: Seq<char>, k: int, from: int)
    requires
        0 <= k <= s.len(),
        0 <= from <= s.len() - k,
    ensures
        digits_end(s.skip(k), from) + k == digits_end(s, from + k),
    decreases s.len() - k - from,
{
    if from < s.len() - k && is_digit(s[from + k]) {
        lemma_digits_end_skip(s, k, from + 1);
    }
}

/// Whether `text` is an unsigned decimal number.
pub fn is_decimal(text: &Vec<char>) -> (b: bool)
    ensures
        b == is_decimal_text(text@),
{
    let n = text.len();
    let whole_end = scan_digits(text, 0);
    let has_point = whole_end < n && text[whole_end] == '.';
    let mut mantissa_end = whole_end;
    let mut digit_count = whole_end;
    if has_point {
        mantissa_end = scan_digits(text, whole_end + 1);
        digit_count = mantissa_end - 1;
    }
    if digit_count == 0 {
        return false;
    }
    if mantissa_end == n {
        return true;
    }
    is_exponent(text, mantissa_end)
}

/// Whether `text` writes a floating-point number.
pub fn is_float(text: &Vec<char>) -> (b: bool)
    ensures
        b == is_float_text(text@),
{
    let n = text.len();
    let start: usize = if n > 0 && (text[0] == '+' || text[0] == '-') { 1 } else { 0 };
    let mut body: Vec<char> = Vec::new();
    let mut i: usize = start;
    while i < n
        invariant
            start <= i <= n,
            n == text.len(),
            body@ == text@.subrange(start as int, i as int),
        decreases n - i,
    {
        body.push(text[i]);
        proof {
            assert(text@.subrange(start as int, i + 1) =~= text@.subrange(start as int, i as int).push(text@[i as int]));
        }
        i = i + 1;
    }
    proof {
        assert(body@ =~= unsigned_part(text@));
    }
    let inf = chars_of("inf");
    let infinity = chars_of("infinity");
    let nan = chars_of("nan");
    same_chars_ignoring_case(&body, &inf) || same_chars_ignoring_case(&body, &infinity)
        || same_chars_ignoring_case(&body, &nan) || is_decimal(&body)
}

} // verus!
