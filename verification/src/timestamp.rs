//! Texts for points in time: clock-style timestamps and seconds with a
//! decimal fraction.

use vstd::prelude::*;
use crate::chars::string_of;
use crate::decimal::{decimal, decimal_chars, lemma_decimal_len, lemma_decimal_digits};
use crate::number::{padded_left, repeated, repeat_chars};
use crate::span::Span;
use crate::wrap::append_chars;

verus! {

/// The numeral of `n` with zeros in front of it where it has fewer than
/// `length` digits.
pub open spec fn zero_padded(n: nat, length: nat) -> Seq<char> {
    padded_left(decimal(n), length, seq!['0'])
}

/// The timestamp of a point `secs` whole seconds after the start: hours,
/// minutes and seconds with colons between them. Minutes and seconds have
/// two digits each; the hours are written as they are.
pub open spec fn timestamp_text(secs: nat) -> Seq<char> {
    decimal(secs / 3600) + seq![':'] + zero_padded((secs / 60) % 60, 2) + seq![':'] + zero_padded(
        secs % 60,
        2,
    )
}

/// The digits behind the decimal point for `part` units of which
/// `10^places` make one whole, without zeros at the end.
pub open spec fn fraction_digits(part: nat, places: nat) -> Seq<char>
    decreases places,
{
    if part == 0 || places == 0 {
        Seq::empty()
    } else if part % 10 == 0 {
        fraction_digits(part / 10, (places - 1) as nat)
    } else {
        zero_padded(part, places)
    }
}

/// A length of time in seconds as a decimal number: the whole seconds,
/// and behind a point the nanoseconds beyond them, without zeros at the
/// end. A whole number of seconds has no point.
pub open spec fn seconds_text(nanos: nat) -> Seq<char> {
    if nanos % 1_000_000_000 == 0 {
        decimal(nanos / 1_000_000_000)
    } else {
        decimal(nanos / 1_000_000_000) + seq!['.'] + fraction_digits(nanos % 1_000_000_000, 9)
    }
}

/// `times` zeros in a row.
pub proof fn lemma_repeated_zeros(times: nat)
    ensures
        repeated(seq!['0'], times).len() == times,
        forall|i: int| 0 <= i < times ==> (#[trigger] repeated(seq!['0'], times)[i]) == '0',
    decreases times,
{
    if times > 0 {
        lemma_repeated_zeros((times - 1) as nat);
    }
}

/// A number below sixty is written with exactly two digits.
pub proof fn lemma_two_digits(n: nat)
    requires
        n < 60,
    ensures
        zero_padded(n, 2).len() == 2,
        '0' <= zero_padded(n, 2)[0] <= '9',
        '0' <= zero_padded(n, 2)[1] <= '9',
{
    lemma_decimal_len(n);
    assert(decimal(n).len() == if n < 10 { 1nat } else { 2nat }) by {
        reveal_with_fuel(decimal, 3);
        reveal_with_fuel(crate::decimal::digit_count, 3);
    }
    lemma_repeated_zeros((2 - decimal(n).len()) as nat);
    if n < 10 {
        lemma_decimal_digits(n, 0);
    } else {
        lemma_decimal_digits(n, 0);
        lemma_decimal_digits(n, 1);
    }
}

/// In every timestamp the minutes and the seconds take two digits each,
/// and the hours stand in front as their plain numeral.
pub proof fn lemma_timestamp_shape(secs: nat)
    ensures
        timestamp_text(secs).len() == decimal(secs / 3600).len() + 6,
        timestamp_text(secs).take(decimal(secs / 3600).len() as int) == decimal(secs / 3600),
        zero_padded((secs / 60) % 60, 2).len() == 2,
        zero_padded(secs % 60, 2).len() == 2,
{
    lemma_two_digits((secs / 60) % 60);
    lemma_two_digits(secs % 60);
    let hours = decimal(secs / 3600);
    assert(timestamp_text(secs).take(hours.len() as int) =~= hours);
}

/// Adds leading zeros to a number that has fewer than `length` digits.
pub fn leading_zeros(number: u64, length: usize) -> (out: String)
    ensures
        out@ == zero_padded(number as nat, length as nat),
{
    let text = leading_zero_chars(number as u128, length);
    string_of(&text)
}

/// The characters of a number with leading zeros up to `length` digits.
pub fn leading_zero_chars(number: u128, length: usize) -> (out: Vec<char>)
    ensures
        out@ == zero_padded(number as nat, length as nat),
{
    let digits = decimal_chars(number);
    if digits.len() < length {
        let mut zero: Vec<char> = Vec::new();
        zero.push('0');
        assert(zero@ =~= seq!['0']);
        let mut out = repeat_chars(&zero, length - digits.len());
        append_chars(&mut out, &digits);
        out
    } else {
        proof {
            if digits.len() == length {
                assert(repeated(seq!['0'], 0) + digits@ =~= digits@);
            }
        }
        digits
    }
}

/// The characters of the timestamp for `secs` whole seconds.
pub fn timestamp_chars(secs: u128) -> (out: Vec<char>)
    ensures
        out@ == timestamp_text(secs as nat),
{
    let mut out = decimal_chars(secs / 3600);
    out.push(':');
    let minutes = leading_zero_chars((secs / 60) % 60, 2);
    append_chars(&mut out, &minutes);
    out.push(':');
    let seconds = leading_zero_chars(secs % 60, 2);
    append_chars(&mut out, &seconds);
    assert(out@ =~= timestamp_text(secs as nat));
    out
}

/// Formats a length of time as `h:mm:ss`. What lies beyond the whole
/// seconds is dropped.
pub fn timestamp_from_duration(duration: Span) -> (out: String)
    ensures
        out@ == timestamp_text(duration@ / 1_000_000_000),
        out@.len() == decimal(duration@ / 1_000_000_000 / 3600).len() + 6,
{
    proof {
        lemma_timestamp_shape(duration@ / 1_000_000_000);
    }
    let text = timestamp_chars(duration.as_secs());
    string_of(&text)
}

/// The digits behind the decimal point, as characters.
pub fn fraction_chars(part: u32, places: usize) -> (out: Vec<char>)
    ensures
        out@ == fraction_digits(part as nat, places as nat),
{
    let mut left: u32 = part;
    let mut width: usize = places;
    while left != 0 && width != 0 && left % 10 == 0
        invariant
            fraction_digits(left as nat, width as nat) == fraction_digits(
                part as nat,
                places as nat,
            ),
        decreases width,
    {
        left = left / 10;
        width = width - 1;
    }
    if left == 0 || width == 0 {
        Vec::new()
    } else {
        leading_zero_chars(left as u128, width)
    }
}

/// The characters of a length of time written in seconds.
pub fn seconds_chars(duration: Span) -> (out: Vec<char>)
    ensures
        out@ == seconds_text(duration@),
{
    let mut out = decimal_chars(duration.as_secs());
    let part = duration.subsec_nanos();
    if part != 0 {
        out.push('.');
        let digits = fraction_chars(part, 9);
        append_chars(&mut out, &digits);
    }
    out
}

} // verus!
