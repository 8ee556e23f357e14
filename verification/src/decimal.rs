//! Numbers written in decimal digits.

use vstd::prelude::*;

verus! {

/// The number that the decimal digits `digits` write.
pub open spec fn decimal(digits: Seq<char>) -> nat
    decreases digits.len(),
{
    if digits.len() == 0 {
        0
    } else {
        (decimal(digits.drop_last()) * 10 + (digits.last() as u32 - 48)) as nat
    }
}

/// Whether `c` is one of the digits `0` to `9`.
pub open spec fn is_digit(c: char) -> bool {
    48 <= c as u32 <= 57
}

/// The number that `digits` writes, where they are one decimal digit or
/// more and the number fits in 64 bits.
pub open spec fn unsigned(digits: Seq<char>) -> Option<u64> {
    if digits.len() > 0 && (forall|i: int| 0 <= i < digits.len() ==> is_digit(#[trigger] digits[i]))
        && decimal(digits) <= u64::MAX {
        Some(decimal(digits) as u64)
    } else {
        None
    }
}

/// A number written in digits is at least the number that any of its
/// beginnings writes.
pub proof fn lemma_decimal_grows(digits: Seq<char>, n: int)
    requires
        0 <= n <= digits.len(),
        forall|i: int| 0 <= i < digits.len() ==> is_digit(#[trigger] digits[i]),
    ensures
        decimal(digits.take(n)) <= decimal(digits),
    decreases digits.len() - n,
{
    if n < digits.len() {
        lemma_decimal_grows(digits, n + 1);
        assert(digits.take(n + 1).drop_last() =~= digits.take(n));
        assert(is_digit(digits[n]));
        assert(digits.take(n + 1).last() == digits[n]);
    } else {
        assert(digits.take(n) =~= digits);
    }
}

/// Reads a number written in decimal digits.
pub fn parse_unsigned(digits: &str) -> (number: Option<u64>)
    ensures
        number == unsigned(digits@),
{
    let mut value: u64 = 0;
    let mut empty = true;
    for c in it: digits.chars()
        invariant
            it.seq() == digits@,
            empty <==> it.index() == 0,
            forall|i: int| 0 <= i < it.index() ==> is_digit(#[trigger] digits@[i]),
            value == decimal(digits@.take(it.index())),
    {
        let ghost seen = it.index();
        let code: u32 = c as u32;
        if code < 48 || code > 57 {
            return None;
        }
        let digit: u64 = (code - 48) as u64;
        proof {
            assert(digits@.take(seen + 1).drop_last() =~= digits@.take(seen));
            assert(digits@.take(seen + 1).last() == c);
        }
        if value > (u64::MAX - digit) / 10 {
            proof {
                if forall|i: int| 0 <= i < digits@.len() ==> is_digit(#[trigger] digits@[i]) {
                    lemma_decimal_grows(digits@, seen + 1);
                }
            }
            return None;
        }
        value = value * 10 + digit;
        empty = false;
    }
    proof {
        assert(digits@.take(digits@.len() as int) =~= digits@);
    }
    if empty {
        None
    } else {
        Some(value)
    }
}

} // verus!
