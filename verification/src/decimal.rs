//! Decimal digits: the value of a run of ASCII digits, and the digits of a value.

use vstd::prelude::*;
use crate::ascii::DIGIT_0;
use crate::ascii::DIGIT_9;
use crate::text::chars_of;
use crate::text::push_char;

verus! {

/// Whether `b` is one of the ASCII digits `0` to `9`.
pub open spec fn is_digit(b: u8) -> bool {
    DIGIT_0 <= b <= DIGIT_9
}

/// Whether every byte of `s` is an ASCII digit.
pub open spec fn all_digits(s: Seq<u8>) -> bool {
    forall|i: int| 0 <= i < s.len() ==> is_digit(#[trigger] s[i])
}

/// The number that the digits of `s` write in base ten, most significant digit first.
pub open spec fn digits_value(s: Seq<u8>) -> nat
    decreases s.len(),
{
    if s.len() == 0 {
        0
    } else {
        10 * digits_value(s.drop_last()) + (s.last() - DIGIT_0) as nat
    }
}

/// The digits of `n` in base ten, most significant first and without leading zeros;
/// zero is the single digit `0`.
pub open spec fn digits_of(n: nat) -> Seq<u8>
    decreases n,
{
    if n < 10 {
        seq![(DIGIT_0 + n) as u8]
    } else {
        digits_of(n / 10).push((DIGIT_0 + n % 10) as u8)
    }
}

/// What an integer literal denotes: its value where it is a run of digits that fits a
/// signed 32-bit integer, nothing otherwise.
pub open spec fn int_literal(s: Seq<u8>) -> Option<i32> {
    if s.len() > 0 && all_digits(s) && digits_value(s) <= i32::MAX {
        Some(digits_value(s) as i32)
    } else {
        None
    }
}

/// Writing a number down and reading it back gives the number.
pub proof fn lemma_digits_round_trip(n: nat)
    ensures
        digits_of(n).len() > 0,
        all_digits(digits_of(n)),
        digits_value(digits_of(n)) == n,
    decreases n,
{
    if n < 10 {
        let s = digits_of(n);
        assert(digits_value(s.drop_last()) == 0);
    } else {
        lemma_digits_round_trip(n / 10);
        let s = digits_of(n);
        assert(s.drop_last() =~= digits_of(n / 10));
    }
}

/// A longer run of digits does not write a smaller number.
pub proof fn lemma_digits_value_grows(s: Seq<u8>, k: int)
    requires
        0 <= k <= s.len(),
    ensures
        digits_value(s.take(k)) <= digits_value(s),
    decreases s.len(),
{
    if k < s.len() {
        lemma_digits_value_grows(s.drop_last(), k);
        assert(s.drop_last().take(k) =~= s.take(k));
    } else {
        assert(s.take(k) =~= s);
    }
}

/// Reads the integer literal that `input` holds from `start` up to `end`.
pub fn parse_int(input: &Vec<u8>, start: usize, end: usize) -> (r: Option<i32>)
    requires
        start <= end <= input.len(),
    ensures
        r == int_literal(input@.subrange(start as int, end as int)),
{
    let ghost s = input@.subrange(start as int, end as int);
    if start == end {
        return None;
    }
    let mut value: i32 = 0;
    let mut i: usize = start;
    while i < end
        invariant
            start <= i <= end <= input.len(),
            s == input@.subrange(start as int, end as int),
            all_digits(s.take(i - start)),
            value == digits_value(s.take(i - start)),
        decreases end - i,
    {
        let b: u8 = input[i];
        let ghost before = s.take(i - start);
        let ghost after = s.take(i - start + 1);
        proof {
            assert(after.drop_last() =~= before);
            assert(after.last() == b);
        }
        if b < DIGIT_0 || b > DIGIT_9 {
            return None;
        }
        let digit: i32 = (b - DIGIT_0) as i32;
        if value > (i32::MAX - digit) / 10 {
            proof {
                lemma_digits_value_grows(s, i - start + 1);
            }
            return None;
        }
        value = value * 10 + digit;
        i = i + 1;
        proof {
            assert forall|j: int| 0 <= j < after.len() implies is_digit(#[trigger] after[j]) by {
                if j < before.len() {
                    assert(before[j] == after[j]);
                }
            }
        }
    }
    proof {
        assert(s.take(end - start) =~= s);
    }
    Some(value)
}

/// Appends the decimal digits of `n` to `s`.
pub fn push_decimal(s: &mut String, n: u32)
    ensures
        final(s)@ == old(s)@ + chars_of(digits_of(n as nat)),
    decreases n,
{
    if n >= 10 {
        push_decimal(s, n / 10);
    }
    let digit: u8 = DIGIT_0 + (n % 10) as u8;
    push_char(s, digit as char);
    proof {
        let d = digits_of(n as nat);
        if n >= 10 {
            assert(chars_of(d) =~= chars_of(digits_of((n / 10) as nat)).push(digit as char));
        } else {
            assert(chars_of(d) =~= seq![digit as char]);
        }
    }
}

} // verus!
