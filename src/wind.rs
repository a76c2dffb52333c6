//! Reading a wind speed out of a descriptor such as `"12 mph"`.

use vstd::prelude::*;

verus! {

/// The speed reported for a descriptor that cannot be read: as windy as a
/// `u8` can say, so that such a period never counts as calm.
pub const WIND_SENTINEL: u8 = 255;

/// The characters that end a token: ASCII whitespace.
pub open spec fn is_separator(c: char) -> bool {
    c == ' ' || c == '\t' || c == '\n' || c == '\r' || c == '\x0C'
}

/// The index at which the token that starts at or before `i` ends: the first
/// whitespace character at or after `i`, or the end of `s`.
pub open spec fn token_end(s: Seq<char>, i: int) -> int
    decreases s.len() - i,
{
    if i < 0 || i >= s.len() || is_separator(s[i]) {
        i
    } else {
        token_end(s, i + 1)
    }
}

/// Everything before the first whitespace character (all of `s` if it holds
/// none).
pub open spec fn first_token(s: Seq<char>) -> Seq<char> {
    s.subrange(0, token_end(s, 0))
}

pub open spec fn is_digit(c: char) -> bool {
    '0' <= c && c <= '9'
}

pub open spec fn digit_value(c: char) -> int {
    c as int - '0' as int
}

pub open spec fn all_digits(d: Seq<char>) -> bool {
    forall|i: int| 0 <= i < d.len() ==> is_digit(#[trigger] d[i])
}

/// The number that a run of decimal digits spells, most significant first.
pub open spec fn decimal_value(d: Seq<char>) -> int
    decreases d.len(),
{
    if d.len() == 0 {
        0
    } else {
        decimal_value(d.drop_last()) * 10 + digit_value(d.last())
    }
}

/// The digits of an unsigned decimal literal, after an optional `+`.
pub open spec fn unsigned_digits(t: Seq<char>) -> Seq<char> {
    if t.len() > 0 && t[0] == '+' {
        t.drop_first()
    } else {
        t
    }
}

/// `t` is a decimal literal of a `u8`: an optional `+`, then at least one
/// digit, with a value of at most 255.
pub open spec fn parses_as_u8(t: Seq<char>) -> bool {
    let d = unsigned_digits(t);
    d.len() > 0 && all_digits(d) && decimal_value(d) <= 255
}

/// The wind speed that a descriptor gives: the number in its first token, or
/// the sentinel where that token is not a `u8`.
pub open spec fn wind_speed_of(s: Seq<char>) -> int {
    let t = first_token(s);
    if parses_as_u8(t) {
        decimal_value(unsigned_digits(t))
    } else {
        WIND_SENTINEL as int
    }
}

proof fn lemma_token_end_bounds(s: Seq<char>, i: int)
    requires
        0 <= i <= s.len(),
    ensures
        i <= token_end(s, i) <= s.len(),
        forall|j: int| i <= j < token_end(s, i) ==> !is_separator(#[trigger] s[j]),
    decreases s.len() - i,
{
    if i < s.len() && !is_separator(s[i]) {
        lemma_token_end_bounds(s, i + 1);
    }
}

/// A descriptor that starts with a decimal number of at most 255 followed by
/// a space reads as that number, whatever comes after the space.
pub proof fn lemma_leading_number_read(digits: Seq<char>, rest: Seq<char>)
    requires
        digits.len() > 0,
        all_digits(digits),
        decimal_value(digits) <= 255,
    ensures
        wind_speed_of(digits + seq![' '] + rest) == decimal_value(digits),
{
    let s = digits + seq![' '] + rest;
    let k = digits.len() as int;
    assert forall|i: int| 0 <= i <= k implies token_end(s, i) == k by {
        assert forall|j: int| i <= j < k implies !is_separator(s[j]) by {
            assert(s[j] == digits[j] && is_digit(digits[j]));
        }
        lemma_token_end_from(s, i, k);
    }
    assert(first_token(s) =~= digits);
    assert(digits[0] != '+') by {
        assert(is_digit(digits[0]));
    }
}

proof fn lemma_token_end_from(s: Seq<char>, i: int, k: int)
    requires
        0 <= i <= k < s.len(),
        is_separator(s[k]),
        forall|j: int| i <= j < k ==> !is_separator(s[j]),
    ensures
        token_end(s, i) == k,
    decreases k - i,
{
    if i < k {
        lemma_token_end_from(s, i + 1, k);
    }
}

fn separator(c: char) -> (r: bool)
    ensures
        r == is_separator(c),
{
    c == ' ' || c == '\t' || c == '\n' || c == '\r' || c == '\x0C'
}

/// Reads the speed from a wind descriptor such as `"12 mph"`: the text before
/// the first whitespace character, read as an unsigned decimal `u8`. Anything
/// else (an empty descriptor, leading whitespace, a word, a number above 255)
/// reads as [`WIND_SENTINEL`].
pub fn parse_wind_speed(s: &str) -> (r: u8)
    ensures
        r as int == wind_speed_of(s@),
{
    let n = s.unicode_len();
    let mut end: usize = 0;
    while end < n && !separator(s.get_char(end))
        invariant
            n == s@.len(),
            end <= n,
            token_end(s@, end as int) == token_end(s@, 0),
        decreases n - end,
    {
        end = end + 1;
    }
    proof {
        lemma_token_end_bounds(s@, 0);
    }
    let ghost t = first_token(s@);
    assert(t =~= s@.subrange(0, end as int));
    let mut start: usize = 0;
    if end > 0 && s.get_char(0) == '+' {
        start = 1;
    }
    let ghost d = unsigned_digits(t);
    assert(d =~= s@.subrange(start as int, end as int));
    if start >= end {
        return WIND_SENTINEL;
    }
    let mut i: usize = start;
    let mut value: u32 = 0;
    let mut ok: bool = true;
    while i < end
        invariant
            n == s@.len(),
            start <= i <= end <= n,
            value <= 256,
            ok == all_digits(s@.subrange(start as int, i as int)),
            ok ==> decimal_value(s@.subrange(start as int, i as int)) >= 0,
            ok ==> value as int == if decimal_value(s@.subrange(start as int, i as int)) < 256 {
                decimal_value(s@.subrange(start as int, i as int))
            } else {
                256
            },
        decreases end - i,
    {
        let c = s.get_char(i);
        let ghost prev = s@.subrange(start as int, i as int);
        let ghost next = s@.subrange(start as int, i + 1);
        assert(next.drop_last() =~= prev);
        assert(next.last() == c);
        if '0' <= c && c <= '9' {
            let digit = (c as u32) - ('0' as u32);
            if ok {
                let v = value * 10 + digit;
                value = if v > 256 { 256 } else { v };
            }
        } else {
            ok = false;
        }
        assert(ok == all_digits(next)) by {
            if all_digits(next) {
                assert(all_digits(prev)) by {
                    assert forall|j: int| 0 <= j < prev.len() implies is_digit(#[trigger] prev[j]) by {
                        assert(prev[j] == next[j]);
                    }
                }
            }
        }
        i = i + 1;
    }
    if ok && value <= 255 {
        value as u8
    } else {
        WIND_SENTINEL
    }
}

} // verus!
