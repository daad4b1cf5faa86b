//! Numbers as text: unsigned integers, and decimal amounts read into
//! ten-thousandths of a unit and written back as sign, whole part and
//! fraction.

use vstd::prelude::*;

verus! {

/// How many ten-thousandths make one unit.
pub const SCALE: u64 = 10_000;

/// The largest whole part that an amount may have, so that it fits in 64 bits
/// with any fraction.
pub const MAX_WHOLE: u64 = 1_844_674_407_370_954;

/// The byte `.`.
pub const DOT: u8 = 46;

/// The byte `-`.
pub const MINUS: u8 = 45;

/// `b` is one of the bytes `0` to `9`.
pub open spec fn is_digit(b: u8) -> bool {
    48 <= b <= 57
}

/// The value of a digit; zero for any other byte.
pub open spec fn digit_of(b: u8) -> nat {
    if is_digit(b) {
        (b - 48) as nat
    } else {
        0
    }
}

/// Every byte of `s` is a digit.
pub open spec fn all_digits(s: Seq<u8>) -> bool {
    forall|i: int| 0 <= i < s.len() ==> is_digit(#[trigger] s[i])
}

/// The number that the digits of `s` write in base ten.
pub open spec fn digits_value(s: Seq<u8>) -> nat
    decreases s.len(),
{
    if s.len() == 0 {
        0
    } else {
        digits_value(s.drop_last()) * 10 + digit_of(s.last())
    }
}

/// The number that `s` writes, where `s` holds digits only (none at all
/// writes zero) and the number is at most `max`.
pub open spec fn digits_in(s: Seq<u8>, max: u64) -> Option<u64> {
    if all_digits(s) && digits_value(s) <= max {
        Some(digits_value(s) as u64)
    } else {
        None
    }
}

/// The number that `s` writes, where `s` is one or more digits and the number
/// is at most `max`.
pub open spec fn number_of(s: Seq<u8>, max: u64) -> Option<u64> {
    if s.len() == 0 {
        None
    } else {
        digits_in(s, max)
    }
}

/// The digit at position `i` of a fraction, zero past its end.
pub open spec fn fraction_digit(frac: Seq<u8>, i: int) -> nat {
    if 0 <= i < frac.len() {
        digit_of(frac[i])
    } else {
        0
    }
}

/// The first four digits of a fraction, in ten-thousandths. Further digits
/// are below what an amount can hold and do not count.
pub open spec fn fraction_value(frac: Seq<u8>) -> nat {
    fraction_digit(frac, 0) * 1000 + fraction_digit(frac, 1) * 100 + fraction_digit(frac, 2) * 10
        + fraction_digit(frac, 3)
}

/// Where the whole part of a decimal ends: at its first `.`, or at its end.
pub open spec fn dot_position(s: Seq<u8>) -> int {
    match s.index_of_first(DOT) {
        Some(i) => i,
        None => s.len() as int,
    }
}

/// What follows the first `.` of a decimal.
pub open spec fn fraction_of(s: Seq<u8>) -> Seq<u8> {
    if dot_position(s) < s.len() {
        s.skip(dot_position(s) + 1)
    } else {
        Seq::empty()
    }
}

/// The amount that an amount field writes. The outer `None` is a field that
/// is no amount. An empty field is an absent amount, `Some(None)`. Otherwise
/// the field is digits, then optionally `.` and digits, with at least one
/// digit in all and a whole part of at most `MAX_WHOLE`.
pub open spec fn amount_of(s: Seq<u8>) -> Option<Option<u64>> {
    let whole = s.take(dot_position(s));
    let frac = fraction_of(s);
    if s.len() == 0 {
        Some(None)
    } else if whole.len() + frac.len() > 0 && all_digits(frac) {
        match digits_in(whole, MAX_WHOLE) {
            Some(w) => Some(Some((w * SCALE + fraction_value(frac)) as u64)),
            None => None,
        }
    } else {
        None
    }
}

/// The digit that writes `d`, for `d` below ten.
pub open spec fn digit_byte(d: nat) -> u8 {
    (48 + d) as u8
}

/// The digits that write `n` in base ten, without leading zeros.
pub open spec fn digits_of(n: nat) -> Seq<u8>
    decreases n,
{
    if n < 10 {
        seq![digit_byte(n)]
    } else {
        digits_of(n / 10).push(digit_byte(n % 10))
    }
}

/// The four digits that write a number of ten-thousandths below one unit.
pub open spec fn fraction_text(f: nat) -> Seq<u8> {
    seq![
        digit_byte(f / 10 / 10 / 10 % 10),
        digit_byte(f / 10 / 10 % 10),
        digit_byte(f / 10 % 10),
        digit_byte(f % 10),
    ]
}

/// A balance as text: `-` if it is negative, its whole units, `.`, and
/// exactly four digits of fraction.
pub open spec fn decimal_text(v: int) -> Seq<u8> {
    let size = if v < 0 {
        -v
    } else {
        v
    };
    let sign = if v < 0 {
        seq![MINUS]
    } else {
        Seq::empty()
    };
    sign + digits_of((size / 10_000) as nat) + seq![DOT] + fraction_text((size % 10_000) as nat)
}

/// A number is at least what any of its prefixes writes.
pub proof fn lemma_prefix_value(s: Seq<u8>, i: int)
    requires
        0 <= i <= s.len(),
    ensures
        digits_value(s.take(i)) <= digits_value(s),
    decreases s.len(),
{
    if i == s.len() {
        assert(s.take(i) =~= s);
    } else {
        lemma_prefix_value(s.drop_last(), i);
        assert(s.drop_last().take(i) =~= s.take(i));
    }
}

/// The value of the digit `b`, or `None` for any other byte.
pub fn digit(b: u8) -> (r: Option<u64>)
    ensures
        r is Some <==> is_digit(b),
        r is Some ==> r.unwrap() == digit_of(b),
{
    if 48 <= b && b <= 57 {
        Some((b - 48) as u64)
    } else {
        None
    }
}

/// Reads the bytes of `s` from `from` up to `to` as a number of at most
/// `max`.
pub fn parse_digits(s: &Vec<u8>, from: usize, to: usize, max: u64) -> (r: Option<u64>)
    requires
        from <= to <= s.len(),
    ensures
        r == digits_in(s@.subrange(from as int, to as int), max),
{
    let ghost part = s@.subrange(from as int, to as int);
    let mut acc: u64 = 0;
    let mut i: usize = from;
    assert(part.take(0) =~= Seq::<u8>::empty());
    while i < to
        invariant
            from <= i <= to <= s.len(),
            part == s@.subrange(from as int, to as int),
            all_digits(part.take(i - from)),
            acc == digits_value(part.take(i - from)),
            acc <= max,
        decreases to - i,
    {
        let ghost k = i - from;
        assert(part.take(k + 1).drop_last() =~= part.take(k));
        assert(part.take(k + 1).last() == s@[i as int]);
        let d: u64 = match digit(s[i]) {
            Some(d) => d,
            None => {
                assert(!is_digit(part[k]));
                return None;
            },
        };
        if d > max || acc > (max - d) / 10 {
            proof {
                lemma_prefix_value(part, k + 1);
            }
            return None;
        }
        acc = acc * 10 + d;
        i = i + 1;
    }
    assert(part.take(to - from) =~= part);
    Some(acc)
}

/// Reads a field as an unsigned integer of at most `max`: one or more digits
/// and nothing else.
pub fn parse_number(s: &Vec<u8>, max: u64) -> (r: Option<u64>)
    ensures
        r == number_of(s@, max),
{
    if s.len() == 0 {
        return None;
    }
    assert(s@.subrange(0, s@.len() as int) =~= s@);
    parse_digits(s, 0, s.len(), max)
}

/// Finds the first `.` of `s`, or its end.
pub fn find_dot(s: &Vec<u8>) -> (p: usize)
    ensures
        p == dot_position(s@),
        p <= s.len(),
{
    let mut i: usize = 0;
    while i < s.len() && s[i] != DOT
        invariant
            i <= s.len(),
            forall|j: int| 0 <= j < i ==> s@[j] != DOT,
        decreases s.len() - i,
    {
        i = i + 1;
    }
    proof {
        s@.index_of_first_ensures(DOT);
    }
    i
}

/// Reads the digit at position `i` of the fraction that starts at `start`,
/// zero past the end of `s`.
fn fraction_digit_at(s: &Vec<u8>, start: usize, i: usize) -> (d: u64)
    requires
        start <= s.len(),
        i < 4,
    ensures
        d == fraction_digit(s@.skip(start as int), i as int),
        d <= 9,
{
    if i < s.len() - start {
        match digit(s[start + i]) {
            Some(d) => d,
            None => 0,
        }
    } else {
        0
    }
}

/// Whether the bytes of `s` from `from` on are all digits.
fn digits_from(s: &Vec<u8>, from: usize) -> (r: bool)
    requires
        from <= s.len(),
    ensures
        r == all_digits(s@.skip(from as int)),
{
    let mut i: usize = from;
    while i < s.len()
        invariant
            from <= i <= s.len(),
            forall|j: int| from <= j < i ==> is_digit(s@[j]),
        decreases s.len() - i,
    {
        if digit(s[i]).is_none() {
            assert(!is_digit(s@.skip(from as int)[i - from]));
            return false;
        }
        i = i + 1;
    }
    true
}

/// Reads an amount field: nothing, or a decimal number, which is taken in
/// ten-thousandths with any further digits dropped.
pub fn parse_amount(s: &Vec<u8>) -> (r: Option<Option<u64>>)
    ensures
        r == amount_of(s@),
{
    if s.len() == 0 {
        return Some(None);
    }
    let p = find_dot(s);
    let start: usize = if p < s.len() {
        p + 1
    } else {
        p
    };
    assert(fraction_of(s@) =~= s@.skip(start as int));
    assert(s@.take(p as int) =~= s@.subrange(0, p as int));
    if p + (s.len() - start) == 0 || !digits_from(s, start) {
        return None;
    }
    match parse_digits(s, 0, p, MAX_WHOLE) {
        None => None,
        Some(w) => {
            let frac: u64 = fraction_digit_at(s, start, 0) * 1000 + fraction_digit_at(s, start, 1)
                * 100 + fraction_digit_at(s, start, 2) * 10 + fraction_digit_at(s, start, 3);
            Some(Some(w * SCALE + frac))
        },
    }
}

/// Splits a balance into its sign, its whole units and its ten-thousandths.
pub fn decimal_parts(v: i128) -> (r: (bool, u128, u16))
    ensures
        r.0 == (v < 0),
        r.2 < SCALE,
        r.1 * SCALE + r.2 == (if v < 0 {
            -v
        } else {
            v as int
        }),
{
    let size: u128 = if v < 0 {
        ((-(v + 1)) as u128) + 1
    } else {
        v as u128
    };
    let whole: u128 = size / 10_000;
    let fraction: u128 = size % 10_000;
    assert(whole * 10_000 + fraction == size);
    (v < 0, whole, fraction as u16)
}

/// Appends the digits of `n` to `out`.
pub fn push_digits(n: u128, out: &mut Vec<u8>)
    ensures
        final(out)@ == old(out)@ + digits_of(n as nat),
    decreases n,
{
    if n >= 10 {
        push_digits(n / 10, out);
    }
    out.push(48 + (n % 10) as u8);
    assert(out@ =~= old(out)@ + digits_of(n as nat));
}

/// Writes a balance as text, with exactly four digits after the point.
pub fn format_decimal(v: i128) -> (text: Vec<u8>)
    ensures
        text@ == decimal_text(v as int),
{
    let (negative, whole, fraction) = decimal_parts(v);
    let mut text: Vec<u8> = Vec::new();
    if negative {
        text.push(MINUS);
    }
    push_digits(whole, &mut text);
    text.push(DOT);
    text.push(48 + (fraction / 10 / 10 / 10 % 10) as u8);
    text.push(48 + (fraction / 10 / 10 % 10) as u8);
    text.push(48 + (fraction / 10 % 10) as u8);
    text.push(48 + (fraction % 10) as u8);
    assert(text@ =~= decimal_text(v as int));
    text
}

} // verus!
