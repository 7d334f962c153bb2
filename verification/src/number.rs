//! Fixed-point numbers: reading decimal text and writing it back.
//!
//! Lengths (mm), feed rates (mm/min) and spindle speeds (rpm) are held as
//! integer millionths: `1_000_000` stands for `1.0`. Decimal text with more
//! than six fractional digits is rounded to the nearest millionth, halves
//! away from zero.
use vstd::prelude::*;

use crate::text::push_char;

verus! {

/// Millionths in one whole unit.
pub const SCALE: i64 = 1_000_000;

/// Largest magnitude, in millionths, of a value read from text (10^12 units).
pub const MAX_MAGNITUDE: i64 = 1_000_000_000_000_000_000;

/// A value that the fixed-point representation holds without overflow in the
/// sums and differences of a few such values.
pub open spec fn in_range(v: int) -> bool {
    -MAX_MAGNITUDE <= v <= MAX_MAGNITUDE
}

/// Decimal digit characters `0` to `9`.
pub open spec fn is_digit(c: char) -> bool {
    '0' <= c && c <= '9'
}

/// The value of a digit character.
pub open spec fn digit_value(c: char) -> int {
    (c as u32) as int - ('0' as u32) as int
}

/// Every character is a decimal digit.
pub open spec fn all_digits(s: Seq<char>) -> bool {
    forall|i: int| 0 <= i < s.len() ==> is_digit(#[trigger] s[i])
}

/// The number written by a sequence of decimal digits.
pub open spec fn digits_value(s: Seq<char>) -> int
    decreases s.len(),
{
    if s.len() == 0 {
        0
    } else {
        digits_value(s.drop_last()) * 10 + digit_value(s.last())
    }
}

/// `10^n`.
pub open spec fn pow10(n: nat) -> int
    decreases n,
{
    if n == 0 {
        1
    } else {
        10 * pow10((n - 1) as nat)
    }
}

/// Length of an optional leading sign.
pub open spec fn sign_len(t: Seq<char>) -> int {
    if t.len() > 0 && (t[0] == '+' || t[0] == '-') {
        1
    } else {
        0
    }
}

/// The text after an optional leading sign.
pub open spec fn unsigned_part(t: Seq<char>) -> Seq<char> {
    t.subrange(sign_len(t), t.len() as int)
}

/// Index of the first `.` at or after `i`, or the length of the text.
pub open spec fn find_point(u: Seq<char>, i: int) -> int
    decreases u.len() - i,
{
    if i >= u.len() {
        u.len() as int
    } else if u[i] == '.' {
        i
    } else {
        find_point(u, i + 1)
    }
}

/// Digits before the decimal point.
pub open spec fn int_digits(u: Seq<char>) -> Seq<char> {
    u.take(find_point(u, 0))
}

/// Digits after the decimal point (none when there is no point).
pub open spec fn frac_digits(u: Seq<char>) -> Seq<char> {
    let p = find_point(u, 0);
    if p < u.len() {
        u.skip(p + 1)
    } else {
        Seq::empty()
    }
}

/// A decimal number: an optional sign, digits with at most one decimal point,
/// and at least one digit (the texts without letters that `f64` parsing accepts).
pub open spec fn decimal_syntax(t: Seq<char>) -> bool {
    let u = unsigned_part(t);
    &&& all_digits(int_digits(u))
    &&& all_digits(frac_digits(u))
    &&& int_digits(u).len() + frac_digits(u).len() >= 1
}

/// The first six fractional digits as millionths.
pub open spec fn frac_millionths(f: Seq<char>) -> int {
    if f.len() >= 6 {
        digits_value(f.take(6))
    } else {
        digits_value(f) * pow10((6 - f.len()) as nat)
    }
}

/// One more millionth when the seventh fractional digit rounds up.
pub open spec fn round_bit(f: Seq<char>) -> int {
    if f.len() > 6 && digit_value(f[6]) >= 5 {
        1
    } else {
        0
    }
}

/// Magnitude in millionths of an unsigned decimal text.
pub open spec fn magnitude(u: Seq<char>) -> int {
    digits_value(int_digits(u)) * SCALE + frac_millionths(frac_digits(u)) + round_bit(
        frac_digits(u),
    )
}

/// The value in millionths of a decimal text; `None` when the text is not a
/// decimal number or its magnitude exceeds `MAX_MAGNITUDE`.
pub open spec fn decimal_value(t: Seq<char>) -> Option<int> {
    let u = unsigned_part(t);
    if decimal_syntax(t) && magnitude(u) <= MAX_MAGNITUDE {
        Some(
            if t.len() > 0 && t[0] == '-' {
                -magnitude(u)
            } else {
                magnitude(u)
            },
        )
    } else {
        None
    }
}

/// The point's position lies between `i` and the end.
pub proof fn lemma_find_point_bounds(u: Seq<char>, i: int)
    requires
        0 <= i <= u.len(),
    ensures
        i <= find_point(u, i) <= u.len(),
        find_point(u, i) < u.len() ==> u[find_point(u, i)] == '.',
        forall|k: int| i <= k < find_point(u, i) ==> u[k] != '.',
    decreases u.len() - i,
{
    if i < u.len() && u[i] != '.' {
        lemma_find_point_bounds(u, i + 1);
    }
}

/// Powers of ten are positive.
pub proof fn lemma_pow10_positive(n: nat)
    ensures
        pow10(n) >= 1,
    decreases n,
{
    if n > 0 {
        lemma_pow10_positive((n - 1) as nat);
    }
}

/// A string of `n` digits has a value below `10^n`.
pub proof fn lemma_digits_value_bounds(s: Seq<char>)
    requires
        all_digits(s),
    ensures
        0 <= digits_value(s) < pow10(s.len()),
    decreases s.len(),
{
    if s.len() > 0 {
        assert(all_digits(s.drop_last())) by {
            assert forall|i: int| 0 <= i < s.drop_last().len() implies is_digit(
                #[trigger] s.drop_last()[i],
            ) by {
                assert(s.drop_last()[i] == s[i]);
            }
        }
        lemma_digits_value_bounds(s.drop_last());
        assert(is_digit(s[s.len() - 1]));
    }
}

/// A prefix of a digit string has no larger value.
pub proof fn lemma_digits_value_prefix(s: Seq<char>, k: int)
    requires
        all_digits(s),
        0 <= k <= s.len(),
    ensures
        digits_value(s.take(k)) <= digits_value(s),
    decreases s.len(),
{
    if k < s.len() {
        let d = s.drop_last();
        assert(all_digits(d)) by {
            assert forall|i: int| 0 <= i < d.len() implies is_digit(#[trigger] d[i]) by {
                assert(d[i] == s[i]);
            }
        }
        lemma_digits_value_prefix(d, k);
        assert(d.take(k) =~= s.take(k));
        lemma_digits_value_bounds(d);
        assert(is_digit(s[s.len() - 1]));
    } else {
        assert(s.take(k) =~= s);
    }
}

/// Appending one digit to a digit sequence.
pub proof fn lemma_digits_value_push(s: Seq<char>, c: char)
    ensures
        digits_value(s.push(c)) == digits_value(s) * 10 + digit_value(c),
{
    assert(s.push(c).drop_last() =~= s);
}

proof fn lemma_all_digits_push(s: Seq<char>, c: char)
    requires
        all_digits(s),
        is_digit(c),
    ensures
        all_digits(s.push(c)),
{
    assert forall|j: int| 0 <= j < s.push(c).len() implies is_digit(#[trigger] s.push(c)[j]) by {
        if j < s.len() {
            assert(s.push(c)[j] == s[j]);
        }
    }
}

proof fn lemma_pow10_at_most_million(n: nat)
    requires
        n <= 6,
    ensures
        1 <= pow10(n) <= 1_000_000,
{
    reveal_with_fuel(pow10, 7);
}

/// The millionths of a fraction are not negative.
pub proof fn lemma_frac_millionths_nonneg(f: Seq<char>)
    requires
        all_digits(f),
    ensures
        0 <= frac_millionths(f),
{
    lemma_digits_value_bounds(f);
    lemma_pow10_positive((6 - f.len()) as nat);
    if f.len() >= 6 {
        assert(all_digits(f.take(6))) by {
            assert forall|j: int| 0 <= j < 6 implies is_digit(#[trigger] f.take(6)[j]) by {
                assert(f.take(6)[j] == f[j]);
            }
        }
        lemma_digits_value_bounds(f.take(6));
    } else {
        assert(digits_value(f) * pow10((6 - f.len()) as nat) >= 0) by (nonlinear_arith)
            requires
                digits_value(f) >= 0,
                pow10((6 - f.len()) as nat) >= 1,
        ;
    }
}

/// Reads the digits before the decimal point of `s[from..end]`: their value
/// when they are all digits and it is at most 10^12, and the index of the point
/// (or `end`).
fn scan_whole(s: &Vec<char>, from: usize, end: usize) -> (r: (usize, Option<i64>))
    requires
        from <= end <= s@.len(),
    ensures
        ({
            let u = s@.subrange(from as int, end as int);
            &&& r.0 == from + find_point(u, 0)
            &&& match r.1 {
                Some(w) => all_digits(int_digits(u)) && w == digits_value(int_digits(u)) && 0 <= w
                    <= 1_000_000_000_000,
                None => !all_digits(int_digits(u)) || digits_value(int_digits(u))
                    > 1_000_000_000_000,
            }
        }),
{
    let ghost u = s@.subrange(from as int, end as int);
    proof {
        lemma_find_point_bounds(u, 0);
    }
    let mut i = from;
    let mut whole: i64 = 0;
    let mut ok = true;
    while i < end && s[i] != '.'
        invariant
            from <= i <= end <= s@.len(),
            u == s@.subrange(from as int, end as int),
            find_point(u, 0) == find_point(u, i - from),
            ok ==> all_digits(s@.subrange(from as int, i as int)),
            ok ==> whole == digits_value(s@.subrange(from as int, i as int)),
            ok ==> 0 <= whole <= 1_000_000_000_000,
            !ok ==> !all_digits(int_digits(u)) || digits_value(int_digits(u))
                > 1_000_000_000_000,
        decreases end - i,
    {
        let c = s[i];
        let ghost k = (i - from) as int;
        proof {
            lemma_find_point_bounds(u, k);
            lemma_find_point_bounds(u, k + 1);
        }
        if ok {
            if !('0' <= c && c <= '9') {
                proof {
                    assert(int_digits(u)[k] == c);
                }
                ok = false;
            } else {
                let ghost prefix = s@.subrange(from as int, i as int);
                proof {
                    lemma_digits_value_push(prefix, c);
                    lemma_all_digits_push(prefix, c);
                    assert(s@.subrange(from as int, i + 1) =~= prefix.push(c));
                }
                whole = whole * 10 + (c as u32 - '0' as u32) as i64;
                if whole > 1_000_000_000_000 {
                    proof {
                        let w = s@.subrange(from as int, i + 1);
                        if all_digits(int_digits(u)) {
                            assert(int_digits(u).take(k + 1) =~= w);
                            lemma_digits_value_prefix(int_digits(u), k + 1);
                        }
                    }
                    ok = false;
                }
            }
        }
        i = i + 1;
    }
    proof {
        lemma_find_point_bounds(u, i - from);
        assert(int_digits(u) =~= s@.subrange(from as int, i as int));
    }
    if ok {
        (i, Some(whole))
    } else {
        (i, None)
    }
}

/// Reads the fractional digits `s[from..end]`: their first six places as
/// millionths and the rounding bit, when they are all digits.
fn scan_fraction(s: &Vec<char>, from: usize, end: usize) -> (r: Option<(i64, i64)>)
    requires
        from <= end <= s@.len(),
    ensures
        ({
            let f = s@.subrange(from as int, end as int);
            match r {
                Some(p) => all_digits(f) && p.0 == frac_millionths(f) && p.1 == round_bit(f) && 0
                    <= p.0 < 1_000_000 && 0 <= p.1 <= 1,
                None => !all_digits(f),
            }
        }),
{
    let ghost f = s@.subrange(from as int, end as int);
    let mut i = from;
    let mut frac: i64 = 0;
    let mut round: i64 = 0;
    while i < end
        invariant
            from <= i <= end <= s@.len(),
            f == s@.subrange(from as int, end as int),
            all_digits(s@.subrange(from as int, i as int)),
            i - from < 6 ==> frac == digits_value(s@.subrange(from as int, i as int)),
            i - from >= 6 ==> frac == digits_value(s@.subrange(from as int, i as int).take(6)),
            0 <= frac < 1_000_000,
            i - from < 6 ==> frac < pow10((i - from) as nat),
            round == round_bit(s@.subrange(from as int, i as int)),
        decreases end - i,
    {
        let c = s[i];
        let ghost prefix = s@.subrange(from as int, i as int);
        assert(s@.subrange(from as int, i + 1) =~= prefix.push(c));
        if !('0' <= c && c <= '9') {
            assert(f[i - from] == c);
            return None;
        }
        proof {
            lemma_all_digits_push(prefix, c);
        }
        let d = (c as u32 - '0' as u32) as i64;
        if i - from < 6 {
            proof {
                lemma_digits_value_push(prefix, c);
                lemma_all_digits_push(prefix, c);
                lemma_digits_value_bounds(prefix.push(c));
                lemma_pow10_at_most_million((i - from + 1) as nat);
                if i - from == 5 {
                    assert(prefix.push(c).take(6) =~= prefix.push(c));
                }
            }
            frac = frac * 10 + d;
        } else {
            proof {
                assert(prefix.push(c).take(6) =~= prefix.take(6));
            }
            if i - from == 6 {
                round = if d >= 5 {
                    1
                } else {
                    0
                };
            }
        }
        i = i + 1;
    }
    proof {
        assert(s@.subrange(from as int, i as int) =~= f);
        reveal_with_fuel(pow10, 7);
        if f.len() < 6 {
            lemma_pow10_at_most_million(f.len());
        }
    }
    // Pad to six places.
    let mut places: usize = if end - from < 6 {
        end - from
    } else {
        6
    };
    let ghost read = frac;
    proof {
        assert(pow10(0) == 1);
        assert(read * pow10(0) == read);
    }
    while places < 6
        invariant
            end - from < 6 ==> end - from <= places <= 6,
            end - from >= 6 ==> places == 6,
            end - from < 6 ==> frac == read * pow10((places - (end - from)) as nat),
            end - from >= 6 ==> frac == read,
            0 <= frac < pow10(places as nat),
            pow10(places as nat) <= 1_000_000,
        decreases 6 - places,
    {
        proof {
            assert(pow10((places + 1 - (end - from)) as nat) == 10 * pow10(
                (places - (end - from)) as nat,
            ));
            assert(pow10((places + 1) as nat) == 10 * pow10(places as nat));
            lemma_pow10_at_most_million((places + 1) as nat);
        }
        frac = frac * 10;
        places = places + 1;
        proof {
            assert(frac == read * pow10((places - (end - from)) as nat)) by (nonlinear_arith)
                requires
                    frac == 10 * (read * pow10((places - 1 - (end - from)) as nat)),
                    pow10((places - (end - from)) as nat) == 10 * pow10(
                        (places - 1 - (end - from)) as nat,
                    ),
            ;
        }
    }
    Some((frac, round))
}

/// Reads a decimal number from `s[start..end]` as millionths, as
/// `decimal_value` states.
pub fn parse_decimal(s: &Vec<char>, start: usize, end: usize) -> (r: Option<i64>)
    requires
        start <= end <= s@.len(),
    ensures
        match r {
            Some(v) => decimal_value(s@.subrange(start as int, end as int)) == Some(v as int),
            None => decimal_value(s@.subrange(start as int, end as int)) is None,
        },
        r matches Some(v) ==> in_range(v as int),
{
    let ghost t = s@.subrange(start as int, end as int);
    let mut ustart = start;
    let mut negative = false;
    if start < end && (s[start] == '+' || s[start] == '-') {
        negative = s[start] == '-';
        ustart = start + 1;
    }
    let ghost u = s@.subrange(ustart as int, end as int);
    assert(u =~= unsigned_part(t));
    proof {
        lemma_find_point_bounds(u, 0);
    }
    let (point, whole) = scan_whole(s, ustart, end);
    let fstart = if point < end {
        point + 1
    } else {
        end
    };
    assert(frac_digits(u) =~= s@.subrange(fstart as int, end as int));
    let fraction = scan_fraction(s, fstart, end);
    match (whole, fraction) {
        (Some(w), Some((frac, round))) => {
            if (point - ustart) + (end - fstart) == 0 {
                return None;
            }
            let m = w * 1_000_000 + frac + round;
            if m > MAX_MAGNITUDE {
                return None;
            }
            if negative {
                Some(-m)
            } else {
                Some(m)
            }
        },
        (None, Some(_)) => {
            proof {
                if all_digits(int_digits(u)) {
                    lemma_frac_millionths_nonneg(frac_digits(u));
                }
            }
            None
        },
        _ => None,
    }
}

/// The character of a decimal digit value.
pub open spec fn digit_char(d: int) -> char {
    (('0' as u32) as int + d) as char
}

/// Decimal text of a natural number, without leading zeros.
pub open spec fn nat_text(n: nat) -> Seq<char>
    decreases n,
{
    if n < 10 {
        seq![digit_char(n as int)]
    } else {
        nat_text(n / 10).push(digit_char((n % 10) as int))
    }
}

/// Decimal text of an integer, with a leading `-` when negative.
pub open spec fn int_text(v: int) -> Seq<char> {
    if v < 0 {
        seq!['-'] + nat_text((-v) as nat)
    } else {
        nat_text(v as nat)
    }
}

/// Three digits with leading zeros (for `n < 1000`).
pub open spec fn pad3(n: int) -> Seq<char> {
    seq![digit_char(n / 100), digit_char((n / 10) % 10), digit_char(n % 10)]
}

/// A millionths value written with three decimals, rounded half away from
/// zero; negative values keep their sign even when they round to zero
/// (as `format!("{:.3}", x)` writes a negative `f64`).
pub open spec fn fixed3_text(v: int) -> Seq<char> {
    let m = if v < 0 {
        -v
    } else {
        v
    };
    let q = (m + 500) / 1000;
    (if v < 0 {
        seq!['-']
    } else {
        Seq::<char>::empty()
    }) + nat_text((q / 1000) as nat) + seq!['.'] + pad3(q % 1000)
}

/// The whole part of a millionths value, truncated toward zero (as
/// `x as i64` truncates an `f64`).
pub open spec fn whole_part(v: int) -> int {
    if v >= 0 {
        v / 1_000_000
    } else {
        -((-v) / 1_000_000)
    }
}

fn digit(d: u64) -> (c: char)
    requires
        d < 10,
    ensures
        c == digit_char(d as int),
{
    ((d as u8) + 48u8) as char
}

/// Appends the decimal text of `n`.
pub fn push_nat(out: &mut String, n: u64)
    ensures
        final(out)@ == old(out)@ + nat_text(n as nat),
    decreases n,
{
    if n >= 10 {
        push_nat(out, n / 10);
    }
    push_char(out, digit(n % 10));
    proof {
        if n >= 10 {
            assert(old(out)@ + nat_text(n as nat) =~= old(out)@ + nat_text((n / 10) as nat)
                + seq![digit_char((n % 10) as int)]);
        } else {
            assert(old(out)@ + nat_text(n as nat) =~= old(out)@.push(digit_char(n as int)));
        }
    }
}

/// Appends the decimal text of `v`.
pub fn push_int(out: &mut String, v: i64)
    ensures
        final(out)@ == old(out)@ + int_text(v as int),
{
    if v < 0 {
        push_char(out, '-');
        let m: u64 = if v == i64::MIN {
            9_223_372_036_854_775_808
        } else {
            (-v) as u64
        };
        push_nat(out, m);
        assert(old(out)@ + int_text(v as int) =~= old(out)@.push('-') + nat_text(m as nat));
    } else {
        push_nat(out, v as u64);
    }
}

/// Appends a millionths value written with three decimals.
pub fn push_fixed3(out: &mut String, v: i64)
    ensures
        final(out)@ == old(out)@ + fixed3_text(v as int),
{
    let m: u64 = if v == i64::MIN {
        9_223_372_036_854_775_808
    } else if v < 0 {
        (-v) as u64
    } else {
        v as u64
    };
    let q: u64 = (m / 1000) + (if m % 1000 >= 500 {
        1
    } else {
        0
    });
    assert(q == (m + 500) / 1000);
    let ghost before = out@;
    if v < 0 {
        push_char(out, '-');
    }
    let ghost signed = out@;
    push_nat(out, q / 1000);
    push_char(out, '.');
    let r = q % 1000;
    push_char(out, digit(r / 100));
    push_char(out, digit((r / 10) % 10));
    push_char(out, digit(r % 10));
    assert(out@ =~= before + fixed3_text(v as int));
}

/// Appends the whole part of a millionths value (see `whole_part`).
pub fn push_whole(out: &mut String, v: i64)
    ensures
        final(out)@ == old(out)@ + int_text(whole_part(v as int)),
{
    let w: i64 = if v >= 0 {
        v / 1_000_000
    } else if v == i64::MIN {
        -9_223_372_036_854
    } else {
        -((-v) / 1_000_000)
    };
    push_int(out, w);
}

/// Six digits with leading zeros (for `n < 1_000_000`).
pub open spec fn pad6(n: int) -> Seq<char> {
    seq![
        digit_char(n / 100_000),
        digit_char((n / 10_000) % 10),
        digit_char((n / 1000) % 10),
        digit_char((n / 100) % 10),
        digit_char((n / 10) % 10),
        digit_char(n % 10),
    ]
}

/// A millionths value written exactly with six decimals (as
/// `format!("{:.6}", x)` writes it).
pub open spec fn fixed6_text(v: int) -> Seq<char> {
    let m = if v < 0 {
        -v
    } else {
        v
    };
    (if v < 0 {
        seq!['-']
    } else {
        Seq::<char>::empty()
    }) + nat_text((m / 1_000_000) as nat) + seq!['.'] + pad6(m % 1_000_000)
}

/// Appends a millionths value written with six decimals.
pub fn push_fixed6(out: &mut String, v: i64)
    ensures
        final(out)@ == old(out)@ + fixed6_text(v as int),
{
    let m: u64 = if v == i64::MIN {
        9_223_372_036_854_775_808
    } else if v < 0 {
        (-v) as u64
    } else {
        v as u64
    };
    let ghost before = out@;
    if v < 0 {
        push_char(out, '-');
    }
    push_nat(out, m / 1_000_000);
    push_char(out, '.');
    let r = m % 1_000_000;
    push_char(out, digit(r / 100_000));
    push_char(out, digit((r / 10_000) % 10));
    push_char(out, digit((r / 1000) % 10));
    push_char(out, digit((r / 100) % 10));
    push_char(out, digit((r / 10) % 10));
    push_char(out, digit(r % 10));
    assert(out@ =~= before + fixed6_text(v as int));
}

/// A value read from text is in range.
pub proof fn lemma_decimal_value_in_range(t: Seq<char>)
    ensures
        decimal_value(t) matches Some(v) ==> in_range(v),
{
    let u = unsigned_part(t);
    if decimal_syntax(t) {
        lemma_digits_value_bounds(int_digits(u));
        lemma_frac_millionths_nonneg(frac_digits(u));
    }
}

/// The decimal text of a natural number is made of digits.
pub proof fn lemma_nat_text_digits(n: nat)
    ensures
        forall|i: int| 0 <= i < nat_text(n).len() ==> '0' <= #[trigger] nat_text(n)[i] <= '9',
    decreases n,
{
    if n >= 10 {
        lemma_nat_text_digits(n / 10);
        let t = nat_text(n);
        let p = nat_text(n / 10);
        assert forall|i: int| 0 <= i < t.len() implies '0' <= #[trigger] t[i] <= '9' by {
            if i < p.len() {
                assert(t[i] == p[i]);
            }
        }
    }
}

/// A value written with three decimals is made of digits, a point and
/// perhaps a leading minus sign.
pub proof fn lemma_fixed3_text_chars(v: int)
    ensures
        forall|i: int|
            0 <= i < fixed3_text(v).len() ==> ('0' <= #[trigger] fixed3_text(v)[i] <= '9'
                || fixed3_text(v)[i] == '-' || fixed3_text(v)[i] == '.'),
{
    let m = if v < 0 {
        -v
    } else {
        v
    };
    let q = (m + 500) / 1000;
    lemma_nat_text_digits((q / 1000) as nat);
    let sign = if v < 0 {
        seq!['-']
    } else {
        Seq::<char>::empty()
    };
    let whole = nat_text((q / 1000) as nat);
    let frac = pad3(q % 1000);
    let t = fixed3_text(v);
    assert(t == sign + whole + seq!['.'] + frac);
    assert forall|i: int| 0 <= i < t.len() implies ('0' <= #[trigger] t[i] <= '9' || t[i] == '-'
        || t[i] == '.') by {
        if i < sign.len() {
            assert(t[i] == sign[i]);
        } else if i < sign.len() + whole.len() {
            assert(t[i] == whole[i - sign.len()]);
        } else if i == sign.len() + whole.len() {
        } else {
            assert(t[i] == frac[i - sign.len() - whole.len() - 1]);
        }
    }
}

} // verus!
