//! Character classes and numeric tokens of the geometry text.
use vstd::prelude::*;

verus! {

/// The characters that carry the Unicode `White_Space` property.
pub open spec fn white_space(c: char) -> bool {
    ('\u{09}' <= c && c <= '\u{0D}') || c == ' ' || c == '\u{85}' || c == '\u{A0}'
        || c == '\u{1680}' || ('\u{2000}' <= c && c <= '\u{200A}') || c == '\u{2028}'
        || c == '\u{2029}' || c == '\u{202F}' || c == '\u{205F}' || c == '\u{3000}'
}

pub open spec fn is_ascii_digit(c: char) -> bool {
    '0' <= c && c <= '9'
}

pub open spec fn all_digits(s: Seq<char>) -> bool {
    forall|k: int| 0 <= k < s.len() ==> is_ascii_digit(#[trigger] s[k])
}

/// The number written by a string of decimal digits, most significant first.
pub open spec fn digits_value(s: Seq<char>) -> nat
    decreases s.len(),
{
    if s.len() == 0 {
        0
    } else {
        digits_value(s.drop_last()) * 10 + (s.last() as nat - '0' as nat) as nat
    }
}

/// The digits of an unsigned decimal token: one leading `+` is allowed before them.
pub open spec fn unsigned_digits(s: Seq<char>) -> Seq<char> {
    if s.len() > 0 && s[0] == '+' {
        s.drop_first()
    } else {
        s
    }
}

/// The value of `s` read as an unsigned decimal `usize`: an optional `+`, then
/// at least one ASCII digit, and a value that fits.
pub open spec fn index_value(s: Seq<char>) -> Option<usize> {
    let d = unsigned_digits(s);
    if d.len() > 0 && all_digits(d) && digits_value(d) <= usize::MAX {
        Some(digits_value(d) as usize)
    } else {
        None
    }
}

/// Whether `c` is white space, as `char::is_whitespace` decides it.
pub fn is_whitespace(c: char) -> (r: bool)
    ensures
        r == white_space(c),
{
    ('\u{09}' <= c && c <= '\u{0D}') || c == ' ' || c == '\u{85}' || c == '\u{A0}'
        || c == '\u{1680}' || ('\u{2000}' <= c && c <= '\u{200A}') || c == '\u{2028}'
        || c == '\u{2029}' || c == '\u{202F}' || c == '\u{205F}' || c == '\u{3000}'
}

/// Reads `text[start..end]` as an unsigned decimal index, as `str::parse::<usize>`
/// does: `None` when the token is empty, holds anything but the digits (after
/// one optional `+`), or names a value beyond `usize::MAX`.
pub fn parse_index(text: &[char], start: usize, end: usize) -> (r: Option<usize>)
    requires
        start <= end <= text@.len(),
    ensures
        r == index_value(text@.subrange(start as int, end as int)),
{
    let ghost s = text@.subrange(start as int, end as int);
    let mut first: usize = start;
    if start < end && text[start] == '+' {
        first = start + 1;
    }
    let ghost d = text@.subrange(first as int, end as int);
    assert(d =~= unsigned_digits(s));
    if first == end {
        return None;
    }
    let mut value: usize = 0;
    let mut overflow = false;
    let mut i: usize = first;
    while i < end
        invariant
            first <= i <= end <= text@.len(),
            d == text@.subrange(first as int, end as int),
            d == unsigned_digits(s),
            s == text@.subrange(start as int, end as int),
            all_digits(text@.subrange(first as int, i as int)),
            !overflow ==> value as nat == digits_value(text@.subrange(first as int, i as int)),
            overflow ==> digits_value(text@.subrange(first as int, i as int)) > usize::MAX,
        decreases end - i,
    {
        let c = text[i];
        if !('0' <= c && c <= '9') {
            assert(d[i - first] == c);
            return None;
        }
        let ghost prefix = text@.subrange(first as int, i as int);
        let ghost next = text@.subrange(first as int, i + 1);
        assert(next.drop_last() =~= prefix);
        assert(next.last() == c);
        let digit = (c as u32 - '0' as u32) as usize;
        if !overflow {
            if value > (usize::MAX - digit) / 10 {
                overflow = true;
                assert(value * 10 + digit > usize::MAX) by (nonlinear_arith)
                    requires
                        value > (usize::MAX - digit) / 10,
                        digit <= 9,
                ;
            } else {
                assert(value * 10 + digit <= usize::MAX) by (nonlinear_arith)
                    requires
                        value <= (usize::MAX - digit) / 10,
                        digit <= 9,
                ;
                value = value * 10 + digit;
            }
        } else {
            assert(digits_value(prefix) * 10 + digit > usize::MAX) by (nonlinear_arith)
                requires
                    digits_value(prefix) > usize::MAX,
            ;
        }
        i = i + 1;
        assert(all_digits(next)) by {
            assert forall|k: int| 0 <= k < next.len() implies is_ascii_digit(#[trigger] next[k]) by {
                if k < prefix.len() {
                    assert(next[k] == prefix[k]);
                }
            }
        }
    }
    assert(text@.subrange(first as int, i as int) =~= d);
    if overflow {
        None
    } else {
        Some(value)
    }
}

} // verus!
