//! Short, human-readable forms of counts.

use vstd::prelude::*;
use crate::chars::{chars_of, string_of};
use crate::decimal::{decimal, decimal_chars, digit_count, lemma_decimal_len};
use crate::wrap::append_chars;

verus! {

/// `pad` written `times` times in a row.
pub open spec fn repeated(pad: Seq<char>, times: nat) -> Seq<char>
    decreases times,
{
    if times == 0 {
        Seq::empty()
    } else {
        repeated(pad, (times - 1) as nat) + pad
    }
}

/// A text brought to `width` characters by copies of `pad` in front of it.
/// A text that is longer than `width` stays as it is.
pub open spec fn padded_left(text: Seq<char>, width: nat, pad: Seq<char>) -> Seq<char> {
    if text.len() > width {
        text
    } else {
        repeated(pad, (width - text.len()) as nat) + text
    }
}

/// `n / unit` with one digit behind the point, cut off (not rounded) after
/// that digit; the point and the digit are left out where the digit is zero.
pub open spec fn one_decimal(n: nat, unit: nat) -> Seq<char>
    recommends
        unit > 0,
{
    let tenths = n * 10 / unit;
    if tenths % 10 == 0 {
        decimal(tenths / 10)
    } else {
        decimal(tenths / 10) + seq!['.'] + decimal(tenths % 10)
    }
}

/// A count with a unit: below a thousand the count itself; then thousands
/// (`k`), millions (`M`) and billions (`B`), with one decimal digit only
/// where a single digit stands before the point. Digits that do not fit are
/// cut off.
pub open spec fn human_number_text(n: nat) -> Seq<char> {
    if n < 1_000 {
        decimal(n)
    } else if n < 10_000 {
        one_decimal(n, 1_000).push('k')
    } else if n < 1_000_000 {
        decimal(n / 1_000).push('k')
    } else if n < 10_000_000 {
        one_decimal(n, 1_000_000).push('M')
    } else if n < 1_000_000_000 {
        decimal(n / 1_000_000).push('M')
    } else {
        one_decimal(n, 1_000_000_000).push('B')
    }
}

/// A number below a thousand has at most three digits, one below a
/// hundred at most two, one below ten a single one.
pub proof fn lemma_short_numerals(n: nat)
    requires
        n < 1_000,
    ensures
        decimal(n).len() <= 3,
        n < 100 ==> decimal(n).len() <= 2,
        n < 10 ==> decimal(n).len() == 1,
{
    lemma_decimal_len(n);
    reveal_with_fuel(digit_count, 4);
}

/// `times` copies of a pad of one character are `times` characters.
pub proof fn lemma_repeated_len(pad: Seq<char>, times: nat)
    requires
        pad.len() == 1,
    ensures
        repeated(pad, times).len() == times,
    decreases times,
{
    if times > 0 {
        lemma_repeated_len(pad, (times - 1) as nat);
    }
}

/// A count that fits in 32 bits is written with at most four characters,
/// so that padded to four it always has exactly four.
pub proof fn lemma_human_number_width(n: nat)
    requires
        n <= u32::MAX,
    ensures
        1 <= human_number_text(n).len() <= 4,
        padded_left(human_number_text(n), NUMBER_WIDTH as nat, seq![' ']).len() == 4,
{
    if n < 1_000 {
        lemma_short_numerals(n);
    } else if n < 10_000 {
        lemma_short_numerals(n * 10 / 1_000 / 10);
        lemma_short_numerals(n * 10 / 1_000 % 10);
    } else if n < 1_000_000 {
        lemma_short_numerals(n / 1_000);
    } else if n < 10_000_000 {
        lemma_short_numerals(n * 10 / 1_000_000 / 10);
        lemma_short_numerals(n * 10 / 1_000_000 % 10);
    } else if n < 1_000_000_000 {
        lemma_short_numerals(n / 1_000_000);
    } else {
        lemma_short_numerals(n * 10 / 1_000_000_000 / 10);
        lemma_short_numerals(n * 10 / 1_000_000_000 % 10);
    }
    let text = human_number_text(n);
    lemma_repeated_len(seq![' '], (4 - text.len()) as nat);
}

/// The width that a formatted count is padded to.
pub const NUMBER_WIDTH: usize = 4;

/// `n / unit`, cut off after one decimal digit, as characters.
pub fn one_decimal_chars(n: u32, unit: u32) -> (out: Vec<char>)
    requires
        unit > 0,
    ensures
        out@ == one_decimal(n as nat, unit as nat),
{
    let tenths: u64 = (n as u64) * 10 / (unit as u64);
    let mut out = decimal_chars((tenths / 10) as u128);
    if tenths % 10 != 0 {
        out.push('.');
        let digit = decimal_chars((tenths % 10) as u128);
        append_chars(&mut out, &digit);
    }
    out
}

/// Displays a count with a unit, such as `k` for thousands.
pub fn human_number(number: u32) -> (out: String)
    ensures
        out@ == human_number_text(number as nat),
{
    let mut text: Vec<char>;
    if number < 1_000 {
        text = decimal_chars(number as u128);
    } else if number < 10_000 {
        text = one_decimal_chars(number, 1_000);
        text.push('k');
    } else if number < 1_000_000 {
        text = decimal_chars((number / 1_000) as u128);
        text.push('k');
    } else if number < 10_000_000 {
        text = one_decimal_chars(number, 1_000_000);
        text.push('M');
    } else if number < 1_000_000_000 {
        text = decimal_chars((number / 1_000_000) as u128);
        text.push('M');
    } else {
        text = one_decimal_chars(number, 1_000_000_000);
        text.push('B');
    }
    string_of(&text)
}

/// `pad` written `times` times in a row, as characters.
pub fn repeat_chars(pad: &Vec<char>, times: usize) -> (out: Vec<char>)
    ensures
        out@ == repeated(pad@, times as nat),
{
    let mut out: Vec<char> = Vec::new();
    let mut i: usize = 0;
    while i < times
        invariant
            i <= times,
            out@ == repeated(pad@, i as nat),
        decreases times - i,
    {
        append_chars(&mut out, pad);
        i += 1;
    }
    out
}

/// Pads a text on the left to `width` characters.
pub fn pad_left(string: &str, width: usize, pad: &str) -> (out: String)
    ensures
        out@ == padded_left(string@, width as nat, pad@),
{
    let text = chars_of(string);
    if text.len() > width {
        return string_of(&text);
    }
    let pad_chars = chars_of(pad);
    let mut out = repeat_chars(&pad_chars, width - text.len());
    append_chars(&mut out, &text);
    string_of(&out)
}

/// Formats a count for a column: human-readable and right-aligned.
pub fn format_number(number: u32) -> (out: String)
    ensures
        out@ == padded_left(human_number_text(number as nat), NUMBER_WIDTH as nat, seq![' ']),
        out@.len() == NUMBER_WIDTH,
{
    let text = human_number(number);
    proof {
        reveal_strlit(" ");
        assert(" "@ =~= seq![' ']);
        lemma_human_number_width(number as nat);
    }
    pad_left(text.as_str(), NUMBER_WIDTH, " ")
}

} // verus!
