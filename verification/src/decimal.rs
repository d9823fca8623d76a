//! Decimal numerals of unsigned integers.

use vstd::prelude::*;

verus! {

/// The character that stands for the digit `d`.
pub open spec fn digit_char(d: nat) -> char
    recommends
        d < 10,
{
    if d == 0 {
        '0'
    } else if d == 1 {
        '1'
    } else if d == 2 {
        '2'
    } else if d == 3 {
        '3'
    } else if d == 4 {
        '4'
    } else if d == 5 {
        '5'
    } else if d == 6 {
        '6'
    } else if d == 7 {
        '7'
    } else if d == 8 {
        '8'
    } else {
        '9'
    }
}

/// The decimal numeral of `n`, most significant digit first, without
/// leading zeros (and `"0"` for zero).
pub open spec fn decimal(n: nat) -> Seq<char>
    decreases n,
{
    if n < 10 {
        seq![digit_char(n)]
    } else {
        decimal(n / 10).push(digit_char(n % 10))
    }
}

/// The number of digits of the decimal numeral of `n`.
pub open spec fn digit_count(n: nat) -> nat
    decreases n,
{
    if n < 10 {
        1
    } else {
        digit_count(n / 10) + 1
    }
}

/// A numeral has as many characters as the number has digits.
pub proof fn lemma_decimal_len(n: nat)
    ensures
        decimal(n).len() == digit_count(n),
        digit_count(n) >= 1,
    decreases n,
{
    if n >= 10 {
        lemma_decimal_len(n / 10);
    }
}

/// Every character of a numeral is a digit.
pub proof fn lemma_decimal_digits(n: nat, i: int)
    requires
        0 <= i < decimal(n).len(),
    ensures
        '0' <= decimal(n)[i] <= '9',
    decreases n,
{
    if n >= 10 {
        if i < decimal(n / 10).len() {
            lemma_decimal_digits(n / 10, i);
        }
    }
}

/// The character of one digit.
pub fn digit_to_char(d: u8) -> (c: char)
    requires
        d < 10,
    ensures
        c == digit_char(d as nat),
{
    if d == 0 {
        '0'
    } else if d == 1 {
        '1'
    } else if d == 2 {
        '2'
    } else if d == 3 {
        '3'
    } else if d == 4 {
        '4'
    } else if d == 5 {
        '5'
    } else if d == 6 {
        '6'
    } else if d == 7 {
        '7'
    } else if d == 8 {
        '8'
    } else {
        '9'
    }
}

/// The decimal numeral of `n` as characters.
pub fn decimal_chars(n: u128) -> (out: Vec<char>)
    ensures
        out@ == decimal(n as nat),
{
    // Digits from the least significant one upwards.
    let mut low_first: Vec<char> = Vec::new();
    low_first.push(digit_to_char((n % 10) as u8));
    let mut rest: u128 = n / 10;
    while rest > 0
        invariant
            low_first@.len() >= 1,
            decimal(n as nat) == if rest > 0 {
                decimal(rest as nat) + low_first@.reverse()
            } else {
                low_first@.reverse()
            },
        decreases rest,
    {
        let ghost before = low_first@;
        low_first.push(digit_to_char((rest % 10) as u8));
        proof {
            let d = digit_char((rest % 10) as nat);
            assert(low_first@.reverse() =~= seq![d] + before.reverse());
            if rest >= 10 {
                assert(decimal(rest as nat) + before.reverse() =~= decimal((rest / 10) as nat)
                    + low_first@.reverse());
            } else {
                assert(decimal(rest as nat) + before.reverse() =~= low_first@.reverse());
            }
        }
        rest = rest / 10;
    }
    let mut out: Vec<char> = Vec::new();
    let mut i: usize = low_first.len();
    while i > 0
        invariant
            i <= low_first.len(),
            out@ == low_first@.reverse().take(low_first.len() - i),
        decreases i,
    {
        i -= 1;
        out.push(low_first[i]);
        assert(out@ =~= low_first@.reverse().take(low_first.len() - i));
    }
    assert(out@ =~= low_first@.reverse());
    out
}

} // verus!
