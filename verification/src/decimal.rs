//! Unsigned decimal numbers in text.

use vstd::prelude::*;

verus! {

/// Whether a character is one of the ten decimal digits.
pub open spec fn is_digit(c: char) -> bool {
    '0' <= c <= '9'
}

/// The value of a decimal digit.
pub open spec fn digit_value(c: char) -> nat {
    (c as nat - '0' as nat) as nat
}

/// Whether a text consists of decimal digits only.
pub open spec fn all_digits(text: Seq<char>) -> bool {
    forall|i: int| 0 <= i < text.len() ==> is_digit(#[trigger] text[i])
}

/// The number that a text of decimal digits denotes.
pub open spec fn number(digits: Seq<char>) -> nat
    decreases digits.len(),
{
    if digits.len() == 0 {
        0
    } else {
        10 * number(digits.drop_last()) + digit_value(digits.last())
    }
}

/// The digits of a text: the text without a leading plus sign.
pub open spec fn unsigned(text: Seq<char>) -> Seq<char> {
    if text.len() > 0 && text[0] == '+' {
        text.skip(1)
    } else {
        text
    }
}

/// The 64-bit number that a text denotes: an optional plus sign, then at
/// least one decimal digit and nothing else, with a value that fits. Any
/// other text denotes no number.
pub open spec fn decimal(text: Seq<char>) -> Option<u64> {
    let digits = unsigned(text);
    if digits.len() > 0 && all_digits(digits) && number(digits) <= u64::MAX {
        Some(number(digits) as u64)
    } else {
        None
    }
}

/// A text of digits denotes at least what any of its beginnings denotes.
pub proof fn lemma_number_grows(digits: Seq<char>, n: int)
    requires
        0 <= n <= digits.len(),
    ensures
        number(digits.take(n)) <= number(digits),
    decreases digits.len(),
{
    if n < digits.len() {
        lemma_number_grows(digits.drop_last(), n);
        assert(digits.drop_last().take(n) =~= digits.take(n));
    } else {
        assert(digits.take(n) =~= digits);
    }
}

/// Reads a 64-bit number from its decimal text, in one pass.
pub fn parse_u64(text: &str) -> (parsed: Option<u64>)
    ensures
        parsed == decimal(text@),
{
    broadcast use vstd::string::group_string_axioms;

    let ghost digits = unsigned(text@);
    let mut value: u64 = 0;
    let mut at_start = true;
    let mut plus = false;
    let mut any = false;
    for c in it: text.chars()
        invariant
            it.seq() == text@,
            digits == unsigned(text@),
            at_start <==> it.index() == 0,
            plus ==> it.index() >= 1 && text@[0] == '+',
            !plus && !at_start ==> text@[0] != '+',
            any <==> it.index() > (if plus { 1int } else { 0int }),
            all_digits(digits.take(it.index() - (if plus { 1int } else { 0int }))),
            value == number(digits.take(it.index() - (if plus { 1int } else { 0int }))),
    {
        if at_start && c == '+' {
            plus = true;
        } else {
            let ghost k = it.index() - (if plus { 1int } else { 0int });
            proof {
                assert(digits[k] == c);
                assert(digits.take(k + 1).drop_last() =~= digits.take(k));
                assert(digits.take(k + 1).last() == c);
            }
            if c < '0' || c > '9' {
                assert(!is_digit(digits[k]));
                return None;
            }
            let d = (c as u64) - ('0' as u64);
            assert(d == digit_value(c));
            assert(number(digits.take(k + 1)) == 10 * value + d);
            if value > (u64::MAX - d) / 10 {
                proof {
                    lemma_number_grows(digits, k + 1);
                }
                return None;
            }
            value = 10 * value + d;
            any = true;
        }
        at_start = false;
    }
    proof {
        assert(digits.take(digits.len() as int) =~= digits);
    }
    if any {
        Some(value)
    } else {
        None
    }
}

} // verus!
