//! Hex colours (`#rrggbb` or `#rrggbbaa`) as the preview reads them.
use vstd::prelude::*;

use crate::text::{
    byte_len, chars_of, len_utf8, lemma_byte_len_monotone,
    lemma_byte_len_take, trim, trim_range,
};

verus! {

/// The text without its leading `#` characters.
pub open spec fn strip_hashes(s: Seq<char>) -> Seq<char>
    decreases s.len(),
{
    if s.len() > 0 && s[0] == '#' {
        strip_hashes(s.drop_first())
    } else {
        s
    }
}

/// The hex digits of a colour value: trimmed, without leading `#`.
pub open spec fn hex_part(value: Seq<char>) -> Seq<char> {
    strip_hashes(trim(value))
}

/// Index of the first non-ASCII character at or after `i`, or the length.
pub open spec fn ascii_run(s: Seq<char>, i: int) -> int
    decreases s.len() - i,
{
    if i < s.len() && (s[i] as u32) < 0x80 {
        ascii_run(s, i + 1)
    } else if i < s.len() {
        i
    } else {
        s.len() as int
    }
}

/// The value of a hexadecimal digit character.
pub open spec fn hex_digit(c: char) -> Option<int> {
    if '0' <= c && c <= '9' {
        Some((c as u32) - ('0' as u32))
    } else if 'a' <= c && c <= 'f' {
        Some((c as u32) - ('a' as u32) + 10)
    } else if 'A' <= c && c <= 'F' {
        Some((c as u32) - ('A' as u32) + 10)
    } else {
        None
    }
}

/// A byte written as two hexadecimal characters (what
/// `u8::from_str_radix(_, 16)` accepts of two characters: two digits, or
/// `+` and one digit).
pub open spec fn radix_byte(a: char, b: char) -> Option<int> {
    if a == '+' {
        hex_digit(b)
    } else {
        match (hex_digit(a), hex_digit(b)) {
            (Some(h), Some(l)) => Some(h * 16 + l),
            _ => None,
        }
    }
}

/// Component `k` of the hex digits: bytes `2k` and `2k + 1`, readable only
/// when both are ASCII characters.
pub open spec fn component(h: Seq<char>, k: int) -> Option<int> {
    if 2 * k + 2 <= ascii_run(h, 0) {
        radix_byte(h[2 * k], h[2 * k + 1])
    } else {
        None
    }
}

/// The colour a value names: red, green and blue from six hex digits, and
/// alpha from two more (255 when there are none or they are not hex);
/// `None` when the digits are not six or eight bytes long or red, green or
/// blue is not two hex digits (a component holding a multi-byte character
/// included).
pub open spec fn color_value(value: Seq<char>) -> Option<(u8, u8, u8, u8)> {
    let h = hex_part(value);
    let n = byte_len(h);
    if n != 6 && n != 8 {
        None
    } else {
        match (component(h, 0), component(h, 1), component(h, 2)) {
            (Some(r), Some(g), Some(b)) => Some(
                (
                    r as u8,
                    g as u8,
                    b as u8,
                    if n == 8 {
                        match component(h, 3) {
                            Some(a) => a as u8,
                            None => 255u8,
                        }
                    } else {
                        255u8
                    },
                ),
            ),
            _ => None,
        }
    }
}

fn hex_digit_value(c: char) -> (r: Option<u8>)
    ensures
        match r {
            Some(v) => hex_digit(c) == Some(v as int) && v < 16,
            None => hex_digit(c) is None,
        },
{
    if '0' <= c && c <= '9' {
        Some((c as u32 - '0' as u32) as u8)
    } else if 'a' <= c && c <= 'f' {
        Some((c as u32 - 'a' as u32 + 10) as u8)
    } else if 'A' <= c && c <= 'F' {
        Some((c as u32 - 'A' as u32 + 10) as u8)
    } else {
        None
    }
}

fn radix_byte_value(a: char, b: char) -> (r: Option<u8>)
    ensures
        match r {
            Some(v) => radix_byte(a, b) == Some(v as int),
            None => radix_byte(a, b) is None,
        },
{
    if a == '+' {
        hex_digit_value(b)
    } else {
        match (hex_digit_value(a), hex_digit_value(b)) {
            (Some(h), Some(l)) => Some(h * 16 + l),
            _ => None,
        }
    }
}

/// The hex digits of `value` as `chars[start..end]`.
fn hex_range(value: &str) -> (r: (Vec<char>, usize, usize))
    ensures
        r.1 <= r.2 <= r.0@.len(),
        r.0@.subrange(r.1 as int, r.2 as int) == hex_part(value@),
{
    let chars = chars_of(value);
    let (a, b) = trim_range(&chars, 0, chars.len());
    assert(chars@.subrange(0, chars@.len() as int) =~= value@);
    let mut start = a;
    while start < b && chars[start] == '#'
        invariant
            a <= start <= b <= chars@.len(),
            strip_hashes(chars@.subrange(a as int, b as int)) == strip_hashes(
                chars@.subrange(start as int, b as int),
            ),
        decreases b - start,
    {
        assert(chars@.subrange(start as int, b as int).drop_first() =~= chars@.subrange(
            start + 1,
            b as int,
        ));
        start = start + 1;
    }
    (chars, start, b)
}

proof fn lemma_ascii_run_bounds(s: Seq<char>, i: int)
    requires
        0 <= i <= s.len(),
    ensures
        i <= ascii_run(s, i) <= s.len(),
        forall|k: int| i <= k < ascii_run(s, i) ==> (s[k] as u32) < 0x80,
        ascii_run(s, i) < s.len() ==> (s[ascii_run(s, i)] as u32) >= 0x80,
    decreases s.len() - i,
{
    if i < s.len() && (s[i] as u32) < 0x80 {
        lemma_ascii_run_bounds(s, i + 1);
    }
}

/// The colour named by `value`, or `None` where a caller falls back.
pub fn hex_color(value: &str) -> (r: Option<(u8, u8, u8, u8)>)
    ensures
        r == color_value(value@),
{
    let (chars, start, end) = hex_range(value);
    let ghost h = chars@.subrange(start as int, end as int);
    // Byte length, stopping once it exceeds eight.
    let mut bytes: usize = 0;
    let mut i = start;
    while i < end && bytes <= 8
        invariant
            start <= i <= end <= chars@.len(),
            h == chars@.subrange(start as int, end as int),
            bytes == byte_len(h.take(i - start)),
            bytes <= 12,
        decreases end - i,
    {
        proof {
            lemma_byte_len_take(h, i - start);
            assert(h[i - start] == chars@[i as int]);
        }
        bytes = bytes + len_utf8(chars[i]);
        i = i + 1;
    }
    proof {
        assert(h.len() == end - start);
        assert(h == hex_part(value@));
        assert(h.take(h.len() as int) =~= h);
        if i < end {
            lemma_byte_len_monotone(h, i - start, h.len() as int);
            assert(byte_len(h) > 8);
        } else {
            assert(h.take(h.len() as int) =~= h);
            assert(byte_len(h) == bytes);
        }
    }
    if i < end || (bytes != 6 && bytes != 8) {
        return None;
    }
    // Leading ASCII characters.
    let mut run = start;
    while run < end && (chars[run] as u32) < 0x80
        invariant
            start <= run <= end <= chars@.len(),
            h == chars@.subrange(start as int, end as int),
            ascii_run(h, 0) == ascii_run(h, run - start),
        decreases end - run,
    {
        run = run + 1;
    }
    proof {
        lemma_ascii_run_bounds(h, run - start);
    }
    let ascii = run - start;
    let red = if ascii >= 2 {
        radix_byte_value(chars[start], chars[start + 1])
    } else {
        None
    };
    let green = if ascii >= 4 {
        radix_byte_value(chars[start + 2], chars[start + 3])
    } else {
        None
    };
    let blue = if ascii >= 6 {
        radix_byte_value(chars[start + 4], chars[start + 5])
    } else {
        None
    };
    match (red, green, blue) {
        (Some(r), Some(g), Some(b)) => {
            let alpha = if bytes == 8 && ascii >= 8 {
                match radix_byte_value(chars[start + 6], chars[start + 7]) {
                    Some(a) => a,
                    None => 255,
                }
            } else {
                255
            };
            Some((r, g, b, alpha))
        },
        _ => None,
    }
}

} // verus!
