//! Decimal numerals: the number that a run of digits denotes, and the digits
//! that denote a number.

use vstd::prelude::*;
use crate::chars::is_digit;

verus! {

/// The value of the decimal digit `c`.
pub open spec fn digit_value(c: char) -> nat
    recommends
        is_digit(c),
{
    (c as int - '0' as int) as nat
}

/// The number that the decimal numeral `digits` denotes; 0 for the empty
/// numeral.
pub open spec fn decimal_value(digits: Seq<char>) -> nat
    decreases digits.len(),
{
    if digits.len() == 0 {
        0
    } else {
        10 * decimal_value(digits.drop_last()) + digit_value(digits.last())
    }
}

/// `digits` is a decimal numeral: one decimal digit or more, and nothing else.
pub open spec fn is_numeral(digits: Seq<char>) -> bool {
    digits.len() > 0 && forall|i: int| 0 <= i < digits.len() ==> is_digit(#[trigger] digits[i])
}

/// What reading `digits` as an integer gives: the value of a decimal numeral
/// that a signed 32-bit integer can hold, and nothing for any other text.
pub open spec fn integer_of(digits: Seq<char>) -> Option<i32> {
    if is_numeral(digits) && decimal_value(digits) <= i32::MAX {
        Some(decimal_value(digits) as i32)
    } else {
        None
    }
}

/// A numeral denotes at least as much as each of its prefixes.
pub proof fn lemma_decimal_value_prefix(digits: Seq<char>, n: int)
    requires
        0 <= n <= digits.len(),
    ensures
        decimal_value(digits.subrange(0, n)) <= decimal_value(digits),
    decreases digits.len() - n,
{
    if n < digits.len() {
        let longer = digits.subrange(0, n + 1);
        assert(longer.drop_last() =~= digits.subrange(0, n));
        lemma_decimal_value_prefix(digits, n + 1);
    } else {
        assert(digits.subrange(0, n) =~= digits);
    }
}

/// Reads `digits` as a decimal integer.
pub fn parse_integer(digits: &[char]) -> (value: Option<i32>)
    ensures
        value == integer_of(digits@),
{
    let n: usize = digits.len();
    if n == 0 {
        return None;
    }
    let mut acc: i32 = 0;
    let mut i: usize = 0;
    while i < n
        invariant
            i <= n,
            n == digits@.len(),
            forall|j: int| 0 <= j < i ==> is_digit(#[trigger] digits@[j]),
            0 <= acc,
            acc == decimal_value(digits@.subrange(0, i as int)),
        decreases n - i,
    {
        let c: char = digits[i];
        if !('0' <= c && c <= '9') {
            return None;
        }
        let d: i32 = (c as u32 - '0' as u32) as i32;
        proof {
            assert(digits@.subrange(0, i + 1).drop_last() =~= digits@.subrange(0, i as int));
            lemma_decimal_value_prefix(digits@, i + 1);
        }
        if acc > 214748364 || (acc == 214748364 && d > 7) {
            return None;
        }
        acc = acc * 10 + d;
        i += 1;
    }
    assert(digits@.subrange(0, n as int) =~= digits@);
    Some(acc)
}

/// The character that stands for the digit `d`.
pub open spec fn digit_char(d: nat) -> char
    recommends
        d < 10,
{
    ('0' as nat + d) as char
}

/// The decimal numeral of `n`, without leading zeros.
pub open spec fn decimal_digits(n: nat) -> Seq<char>
    decreases n,
{
    if n < 10 {
        seq![digit_char(n)]
    } else {
        decimal_digits(n / 10).push(digit_char(n % 10))
    }
}

/// Appends the decimal numeral of `n` to `out`.
pub fn push_decimal(n: usize, out: &mut Vec<char>)
    ensures
        final(out)@ == old(out)@ + decimal_digits(n as nat),
    decreases n,
{
    if n >= 10 {
        push_decimal(n / 10, out);
    }
    let d: u8 = (n % 10) as u8;
    out.push((48u8 + d) as char);
}

} // verus!
