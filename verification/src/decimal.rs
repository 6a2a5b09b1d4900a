//! Fixed-point decimals.
//!
//! Every price, size, notional and basis-point figure in this crate is an
//! unsigned integer that counts units of 10^-8: `1.5` is `150_000_000`.
//! Exchanges send such figures as decimal text; [`parse_decimal`] reads it
//! exactly or rejects it, so nothing that is not a number is ever stored,
//! and no figure is ever rounded on the way in.

use vstd::prelude::*;
use vstd::string::*;
use crate::errors::ExchangeError;

verus! {

/// Fractional digits of a fixed-point value.
pub const DECIMALS: usize = 8;

/// The fixed-point representation of one: 10^8.
pub const SCALE: u64 = 100_000_000;

pub open spec fn is_digit(c: char) -> bool {
    '0' <= c && c <= '9'
}

pub open spec fn digit_value(c: char) -> nat {
    (c as u32 - '0' as u32) as nat
}

/// The number that a string of decimal digits writes; zero for the empty string.
pub open spec fn digits_value(digits: Seq<char>) -> nat
    decreases digits.len(),
{
    if digits.len() == 0 {
        0
    } else {
        10 * digits_value(digits.drop_last()) + digit_value(digits.last())
    }
}

pub open spec fn all_digits(text: Seq<char>) -> bool {
    forall|i: int| 0 <= i < text.len() ==> is_digit(#[trigger] text[i])
}

pub open spec fn pow10(exponent: nat) -> nat
    decreases exponent,
{
    if exponent == 0 {
        1
    } else {
        10 * pow10((exponent - 1) as nat)
    }
}

/// Index of the first `.` in `text`, or `text.len()` where it has none.
pub open spec fn point_position(text: Seq<char>) -> int
    decreases text.len(),
{
    if text.len() == 0 || text[0] == '.' {
        0
    } else {
        1 + point_position(text.drop_first())
    }
}

/// The digits before the decimal point.
pub open spec fn whole_part(text: Seq<char>) -> Seq<char> {
    text.take(point_position(text))
}

/// The digits after the decimal point; empty where there is no point.
pub open spec fn fraction_part(text: Seq<char>) -> Seq<char> {
    if point_position(text) < text.len() {
        text.skip(point_position(text) + 1)
    } else {
        Seq::empty()
    }
}

/// The fractional digits that count: the first eight, or all where there
/// are fewer.
pub open spec fn kept_fraction(text: Seq<char>) -> Seq<char> {
    if fraction_part(text).len() <= 8 {
        fraction_part(text)
    } else {
        fraction_part(text).take(8)
    }
}

/// The fractional digits beyond the eighth.
pub open spec fn spare_fraction(text: Seq<char>) -> Seq<char> {
    if fraction_part(text).len() <= 8 {
        Seq::empty()
    } else {
        fraction_part(text).skip(8)
    }
}

pub open spec fn all_zeros(text: Seq<char>) -> bool {
    forall|i: int| 0 <= i < text.len() ==> #[trigger] text[i] == '0'
}

/// The fixed-point value of decimal text.
///
/// The text is one or more digits, optionally followed by a point and
/// further digits. Eight fractional digits count; digits beyond the eighth
/// are taken where they are zeros, which add nothing, and make the text
/// worthless where one of them is not, since the value could not be kept
/// exactly. A sign, an exponent, a blank, a text that starts with the
/// point, and anything else that is no digit leave the text without value:
/// figures of a book are never negative, and exchanges write them in plain
/// decimal notation.
pub open spec fn decimal_value(text: Seq<char>) -> Option<nat> {
    let whole = whole_part(text);
    let kept = kept_fraction(text);
    if whole.len() > 0 && all_digits(whole) && all_digits(kept) && all_zeros(spare_fraction(text)) {
        Some(digits_value(whole) * 100_000_000 + digits_value(kept) * pow10((8 - kept.len()) as nat))
    } else {
        None
    }
}

/// The text is a decimal whose value fits the fixed-point range.
pub open spec fn is_decimal(text: Seq<char>) -> bool {
    decimal_value(text) matches Some(v) && v <= u64::MAX
}

proof fn lemma_point_position(text: Seq<char>)
    ensures
        0 <= point_position(text) <= text.len(),
        forall|j: int| 0 <= j < point_position(text) ==> text[j] != '.',
        point_position(text) < text.len() ==> text[point_position(text)] == '.',
    decreases text.len(),
{
    if text.len() == 0 || text[0] == '.' {
    } else {
        let rest = text.drop_first();
        lemma_point_position(rest);
        assert forall|j: int| 0 <= j < point_position(text) implies text[j] != '.' by {
            if j > 0 {
                assert(text[j] == rest[j - 1]);
            }
        }
        if point_position(text) < text.len() {
            assert(text[point_position(text)] == rest[point_position(rest)]);
        }
    }
}

/// The first point is where a scan from the left stops.
proof fn lemma_point_found(text: Seq<char>, at: int)
    requires
        0 <= at <= text.len(),
        forall|j: int| 0 <= j < at ==> text[j] != '.',
        at < text.len() ==> text[at] == '.',
    ensures
        point_position(text) == at,
{
    lemma_point_position(text);
    let p = point_position(text);
    if p < at {
        assert(text[p] == '.');
    } else if at < p {
        assert(text[at] == '.');
    }
}

proof fn lemma_digits_push(digits: Seq<char>, c: char)
    ensures
        digits_value(digits.push(c)) == 10 * digits_value(digits) + digit_value(c),
{
    assert(digits.push(c).drop_last() =~= digits);
}

/// A longer run of digits never writes a smaller number than its prefix.
proof fn lemma_digits_monotone(digits: Seq<char>, prefix: int)
    requires
        0 <= prefix <= digits.len(),
    ensures
        digits_value(digits.take(prefix)) <= digits_value(digits),
    decreases digits.len() - prefix,
{
    if prefix == digits.len() {
        assert(digits.take(prefix) =~= digits);
    } else {
        lemma_digits_monotone(digits, prefix + 1);
        assert(digits.take(prefix + 1).drop_last() =~= digits.take(prefix));
    }
}

/// A run of at most eight digits writes a number below 10^8.
proof fn lemma_digits_bound(digits: Seq<char>)
    requires
        all_digits(digits),
    ensures
        digits_value(digits) < pow10(digits.len()),
    decreases digits.len(),
{
    if digits.len() > 0 {
        let front = digits.drop_last();
        assert forall|i: int| 0 <= i < front.len() implies is_digit(#[trigger] front[i]) by {
            assert(front[i] == digits[i]);
        }
        lemma_digits_bound(front);
        assert(is_digit(digits[digits.len() - 1]));
    }
}

proof fn lemma_pow10_values()
    ensures
        pow10(0) == 1,
        pow10(1) == 10,
        pow10(2) == 100,
        pow10(3) == 1_000,
        pow10(4) == 10_000,
        pow10(5) == 100_000,
        pow10(6) == 1_000_000,
        pow10(7) == 10_000_000,
        pow10(8) == 100_000_000,
{
    reveal_with_fuel(pow10, 9);
}

fn digit_of(c: char) -> (digit: Option<u8>)
    ensures
        match digit {
            Some(d) => is_digit(c) && d as nat == digit_value(c),
            None => !is_digit(c),
        },
{
    if '0' <= c && c <= '9' {
        Some((c as u32 - '0' as u32) as u8)
    } else {
        None
    }
}

fn parse_failure(text: &str) -> (error: ExchangeError)
    ensures
        error.is_parse_of(text@),
{
    ExchangeError::Parse(String::from_str(text))
}

/// Reads decimal text into a fixed-point value. The text is accepted exactly
/// when it is a decimal within range, as [`decimal_value`] says: plain
/// digits with at most one point after the first digit, and nothing but
/// zeros beyond the eighth fractional digit. A rejected text comes back
/// inside the error.
pub fn parse_decimal(text: &str) -> (parsed: Result<u64, ExchangeError>)
    ensures
        match parsed {
            Ok(value) => decimal_value(text@) == Some(value as nat),
            Err(error) => !is_decimal(text@) && error.is_parse_of(text@),
        },
{
    let n = text.unicode_len();
    let mut at: usize = 0;
    let mut whole: u128 = 0;
    let mut at_point = false;
    while at < n && !at_point
        invariant
            n == text@.len(),
            at <= n,
            forall|j: int| 0 <= j < at ==> is_digit(#[trigger] text@[j]),
            whole == digits_value(text@.take(at as int)),
            whole <= u64::MAX,
            at_point ==> at < n && text@[at as int] == '.',
        decreases n - at + (if at_point { 0int } else { 1int }),
    {
        let c = text.get_char(at);
        if c == '.' {
            at_point = true;
        } else {
            match digit_of(c) {
                None => {
                    proof {
                        lemma_point_position(text@);
                        let p = point_position(text@);
                        if p <= at {
                            assert(text@[p] == '.');
                        } else {
                            assert(whole_part(text@)[at as int] == c);
                        }
                    }
                    return Err(parse_failure(text));
                },
                Some(d) => {
                    proof {
                        lemma_digits_push(text@.take(at as int), c);
                        assert(text@.take(at as int).push(c) =~= text@.take(at + 1));
                    }
                    whole = whole * 10 + d as u128;
                    if whole > u64::MAX as u128 {
                        proof {
                            lemma_point_position(text@);
                            let p = point_position(text@);
                            if p <= at {
                                assert(text@[p] == '.');
                            } else {
                                lemma_digits_monotone(whole_part(text@), at + 1);
                                assert(whole_part(text@).take(at + 1) =~= text@.take(at + 1));
                            }
                        }
                        return Err(parse_failure(text));
                    }
                    at += 1;
                },
            }
        }
    }
    proof {
        assert forall|j: int| 0 <= j < at implies text@[j] != '.' by {
            assert(is_digit(text@[j]));
        }
        lemma_point_found(text@, at as int);
        assert(whole_part(text@) =~= text@.take(at as int));
    }
    if at == 0 {
        return Err(parse_failure(text));
    }
    let start: usize = if at_point { at + 1 } else { n };
    let end: usize = if n - start > DECIMALS { start + DECIMALS } else { n };
    let ghost kept = kept_fraction(text@);
    let ghost spare = spare_fraction(text@);
    proof {
        assert(fraction_part(text@) =~= text@.skip(start as int));
        assert(kept =~= text@.subrange(start as int, end as int));
        assert(spare =~= text@.skip(end as int));
    }
    let mut k: usize = start;
    let mut frac: u64 = 0;
    while k < end
        invariant
            n == text@.len(),
            start <= k <= end <= n,
            end - start <= 8,
            kept == text@.subrange(start as int, end as int),
            kept == kept_fraction(text@),
            forall|j: int| 0 <= j < k - start ==> is_digit(#[trigger] kept[j]),
            frac == digits_value(kept.take(k - start)),
            frac < pow10((k - start) as nat),
        decreases end - k,
    {
        let c = text.get_char(k);
        match digit_of(c) {
            None => {
                assert(kept[k - start] == c);
                return Err(parse_failure(text));
            },
            Some(d) => {
                proof {
                    lemma_pow10_values();
                    lemma_digits_push(kept.take(k - start), c);
                    assert(kept.take(k - start).push(c) =~= kept.take(k - start + 1));
                    assert(kept[k - start] == c);
                    assert(pow10((k - start + 1) as nat) == 10 * pow10((k - start) as nat));
                }
                frac = frac * 10 + d as u64;
                k += 1;
            },
        }
    }
    assert(kept.take(end - start) =~= kept);
    let mut z: usize = end;
    while z < n
        invariant
            n == text@.len(),
            end <= z <= n,
            spare == text@.skip(end as int),
            spare == spare_fraction(text@),
            forall|j: int| 0 <= j < z - end ==> #[trigger] spare[j] == '0',
        decreases n - z,
    {
        if text.get_char(z) != '0' {
            assert(spare[z - end] != '0');
            return Err(parse_failure(text));
        }
        z += 1;
    }
    proof {
        lemma_pow10_values();
    }
    let mut scaled: u64 = frac;
    let mut shift: usize = end - start;
    assert(scaled == frac * pow10((shift - (end - start)) as nat)) by {
        let unit = pow10((shift - (end - start)) as nat);
        assert(unit == 1);
        assert(frac * unit == frac) by (nonlinear_arith)
            requires
                unit == 1,
        ;
    }
    while shift < DECIMALS
        invariant
            end - start <= shift <= 8,
            frac < pow10((end - start) as nat),
            scaled == frac * pow10((shift - (end - start)) as nat),
            scaled < pow10(shift as nat),
        decreases 8 - shift,
    {
        proof {
            lemma_pow10_values();
            let done = (shift - (end - start)) as nat;
            assert(pow10(done + 1) == 10 * pow10(done));
            assert(pow10((shift + 1) as nat) == 10 * pow10(shift as nat));
            assert(frac * (10 * pow10(done)) == 10 * (frac * pow10(done))) by (nonlinear_arith);
        }
        scaled = scaled * 10;
        shift += 1;
    }
    assert(whole * 100_000_000 <= u64::MAX * 100_000_000) by (nonlinear_arith)
        requires
            whole <= u64::MAX,
    ;
    let total: u128 = whole * (SCALE as u128) + scaled as u128;
    if total > u64::MAX as u128 {
        return Err(parse_failure(text));
    }
    Ok(total as u64)
}

/// The character that writes a digit.
pub open spec fn digit_char(digit: nat) -> char {
    if digit == 0 {
        '0'
    } else if digit == 1 {
        '1'
    } else if digit == 2 {
        '2'
    } else if digit == 3 {
        '3'
    } else if digit == 4 {
        '4'
    } else if digit == 5 {
        '5'
    } else if digit == 6 {
        '6'
    } else if digit == 7 {
        '7'
    } else if digit == 8 {
        '8'
    } else {
        '9'
    }
}

/// The decimal digits of a number, without leading zeros; `0` for zero.
pub open spec fn digits_of(value: nat) -> Seq<char>
    decreases value,
{
    if value < 10 {
        seq![digit_char(value)]
    } else {
        digits_of(value / 10).push(digit_char(value % 10))
    }
}

/// The digits of a number write that number.
pub proof fn law_digits_roundtrip(value: nat)
    ensures
        all_digits(digits_of(value)),
        digits_value(digits_of(value)) == value,
    decreases value,
{
    if value < 10 {
        let text = digits_of(value);
        assert(text.drop_last() =~= Seq::<char>::empty());
        assert(digits_value(text.drop_last()) == 0);
    } else {
        law_digits_roundtrip(value / 10);
        lemma_digits_push(digits_of(value / 10), digit_char(value % 10));
    }
}

fn digit_text(digit: u8) -> (text: &'static str)
    requires
        digit < 10,
    ensures
        text@ == seq![digit_char(digit as nat)],
{
    proof {
        reveal_strlit("0");
        reveal_strlit("1");
        reveal_strlit("2");
        reveal_strlit("3");
        reveal_strlit("4");
        reveal_strlit("5");
        reveal_strlit("6");
        reveal_strlit("7");
        reveal_strlit("8");
        reveal_strlit("9");
    }
    let text = if digit == 0 {
        "0"
    } else if digit == 1 {
        "1"
    } else if digit == 2 {
        "2"
    } else if digit == 3 {
        "3"
    } else if digit == 4 {
        "4"
    } else if digit == 5 {
        "5"
    } else if digit == 6 {
        "6"
    } else if digit == 7 {
        "7"
    } else if digit == 8 {
        "8"
    } else {
        "9"
    };
    assert(text@ =~= seq![digit_char(digit as nat)]);
    text
}

/// Appends the decimal digits of `value` to `text`.
pub fn append_unsigned(text: &mut String, value: u64)
    ensures
        final(text)@ == old(text)@ + digits_of(value as nat),
    decreases value,
{
    if value >= 10 {
        append_unsigned(text, value / 10);
    }
    text.append(digit_text((value % 10) as u8));
    proof {
        if value >= 10 {
            assert(old(text)@ + digits_of((value / 10) as nat) + seq![
                digit_char((value % 10) as nat),
            ] =~= old(text)@ + digits_of(value as nat));
        }
    }
}

/// The decimal digits of `value` as a string.
pub fn unsigned_text(value: u64) -> (text: String)
    ensures
        text@ == digits_of(value as nat),
{
    let mut text = String::new();
    append_unsigned(&mut text, value);
    proof {
        assert(Seq::<char>::empty() + digits_of(value as nat) =~= digits_of(value as nat));
    }
    text
}

/// The last `width` decimal digits of a number, with leading zeros.
pub open spec fn padded_digits(value: nat, width: nat) -> Seq<char>
    decreases width,
{
    if width == 0 {
        Seq::empty()
    } else {
        padded_digits(value / 10, (width - 1) as nat).push(digit_char(value % 10))
    }
}

/// A fixed-point value as decimal text: the whole part, a point, and all
/// eight fractional digits.
pub open spec fn fixed_text(value: u64) -> Seq<char> {
    digits_of((value / 100_000_000) as nat) + seq!['.'] + padded_digits(
        (value % 100_000_000) as nat,
        8,
    )
}

/// A number or, below zero, a minus sign and its magnitude.
pub open spec fn signed_digits(value: int) -> Seq<char> {
    if value < 0 {
        seq!['-'] + digits_of((-value) as nat)
    } else {
        digits_of(value as nat)
    }
}

proof fn lemma_digits_of_shape(value: nat)
    ensures
        digits_of(value).len() > 0,
        all_digits(digits_of(value)),
        forall|i: int| 0 <= i < digits_of(value).len() ==> #[trigger] digits_of(value)[i] != '.',
    decreases value,
{
    if value >= 10 {
        lemma_digits_of_shape(value / 10);
    }
}

proof fn lemma_padded_digits(value: nat, width: nat)
    requires
        value < pow10(width),
    ensures
        padded_digits(value, width).len() == width,
        all_digits(padded_digits(value, width)),
        digits_value(padded_digits(value, width)) == value,
    decreases width,
{
    if width > 0 {
        lemma_padded_digits(value / 10, (width - 1) as nat);
        lemma_digits_push(
            padded_digits(value / 10, (width - 1) as nat),
            digit_char(value % 10),
        );
    }
}

/// Text that is written for a fixed-point value reads back as that value.
pub proof fn law_fixed_text_roundtrip(value: u64)
    ensures
        decimal_value(fixed_text(value)) == Some(value as nat),
        is_decimal(fixed_text(value)),
{
    let whole = digits_of((value / 100_000_000) as nat);
    let fraction = padded_digits((value % 100_000_000) as nat, 8);
    let text = fixed_text(value);
    lemma_pow10_values();
    lemma_digits_of_shape((value / 100_000_000) as nat);
    law_digits_roundtrip((value / 100_000_000) as nat);
    lemma_padded_digits((value % 100_000_000) as nat, 8);
    assert(text[whole.len() as int] == '.');
    assert forall|j: int| 0 <= j < whole.len() implies text[j] != '.' by {
        assert(text[j] == whole[j]);
    }
    lemma_point_found(text, whole.len() as int);
    assert(whole_part(text) =~= whole);
    assert(fraction_part(text) =~= fraction);
    assert(kept_fraction(text) =~= fraction);
    assert(spare_fraction(text) =~= Seq::<char>::empty());
    let units = pow10((8 - fraction.len()) as nat);
    assert(units == 1);
    assert(digits_value(fraction) * units == digits_value(fraction)) by (nonlinear_arith)
        requires
            units == 1,
    ;
    assert((value / 100_000_000) * 100_000_000 + value % 100_000_000 == value);
}

/// Appends the last `width` digits of `value`, with leading zeros.
fn append_padded(text: &mut String, value: u64, width: usize)
    ensures
        final(text)@ == old(text)@ + padded_digits(value as nat, width as nat),
    decreases width,
{
    if width == 0 {
        proof {
            assert(old(text)@ + padded_digits(value as nat, 0) =~= old(text)@);
        }
        return;
    }
    append_padded(text, value / 10, width - 1);
    text.append(digit_text((value % 10) as u8));
    proof {
        assert(old(text)@ + padded_digits((value / 10) as nat, (width - 1) as nat) + seq![
            digit_char((value % 10) as nat),
        ] =~= old(text)@ + padded_digits(value as nat, width as nat));
    }
}

/// Appends a fixed-point value as decimal text.
pub fn append_fixed(text: &mut String, value: u64)
    ensures
        final(text)@ == old(text)@ + fixed_text(value),
{
    append_unsigned(text, value / SCALE);
    proof {
        reveal_strlit(".");
    }
    text.append(".");
    append_padded(text, value % SCALE, DECIMALS);
    proof {
        assert("."@ =~= seq!['.']);
        assert(text@ =~= old(text)@ + fixed_text(value));
    }
}

/// A fixed-point value as decimal text with all eight fractional digits.
pub fn format_decimal(value: u64) -> (text: String)
    ensures
        text@ == fixed_text(value),
{
    let mut text = String::new();
    append_fixed(&mut text, value);
    proof {
        assert(Seq::<char>::empty() + fixed_text(value) =~= fixed_text(value));
    }
    text
}

/// Appends a number, with a minus sign where it is below zero.
pub fn append_signed(text: &mut String, value: i64)
    ensures
        final(text)@ == old(text)@ + signed_digits(value as int),
{
    if value < 0 {
        proof {
            reveal_strlit("-");
        }
        text.append("-");
        let magnitude: u64 = if value == i64::MIN {
            9_223_372_036_854_775_808
        } else {
            (-value) as u64
        };
        append_unsigned(text, magnitude);
        proof {
            assert("-"@ =~= seq!['-']);
            assert(text@ =~= old(text)@ + signed_digits(value as int));
        }
    } else {
        append_unsigned(text, value as u64);
    }
}

} // verus!
