//! Whole numbers written in decimal digits.

use std::str::Chars;
use vstd::prelude::*;
use vstd::std_specs::iter::IteratorSpec;

verus! {

/// The value of a decimal digit.
pub open spec fn digit_of(c: char) -> Option<nat> {
    if 48 <= c as u32 <= 57 {
        Some((c as u32 - 48) as nat)
    } else {
        None
    }
}

/// The number that a run of decimal digits writes; 0 for the empty run, and
/// nothing where a character is no digit.
pub open spec fn digits_value(digits: Seq<char>) -> Option<nat>
    decreases digits.len(),
{
    if digits.len() == 0 {
        Some(0)
    } else {
        match (digits_value(digits.drop_last()), digit_of(digits.last())) {
            (Some(value), Some(digit)) => Some(value * 10 + digit),
            _ => None,
        }
    }
}

/// The digits of a count: the text without one leading `+`.
pub open spec fn count_digits(text: Seq<char>) -> Seq<char> {
    if text.len() > 0 && text[0] == '+' {
        text.drop_first()
    } else {
        text
    }
}

/// The count that a text writes: one digit or more, after at most one `+`.
pub open spec fn count_of(text: Seq<char>) -> Option<nat> {
    if count_digits(text).len() == 0 {
        None
    } else {
        digits_value(count_digits(text))
    }
}

/// The digits before a place write a number no larger than all of them do.
pub proof fn lemma_digits_prefix(digits: Seq<char>, k: int)
    requires
        0 <= k <= digits.len(),
    ensures
        match digits_value(digits) {
            Some(value) => match digits_value(digits.take(k)) {
                Some(part) => part <= value,
                None => false,
            },
            None => true,
        },
    decreases digits.len(),
{
    if k == digits.len() {
        assert(digits.take(k) =~= digits);
    } else {
        assert(digits.drop_last().take(k) =~= digits.take(k));
        lemma_digits_prefix(digits.drop_last(), k);
    }
}

/// Reads a whole number: decimal digits, one or more, after at most one
/// `+`. Nothing is read from any other text, nor from one that writes a
/// number above the largest of 64 bits.
pub fn parse_u64(text: &str) -> (parsed: Option<u64>)
    ensures
        match parsed {
            Some(n) => count_of(text@) == Some(n as nat),
            None => match count_of(text@) {
                Some(n) => n > u64::MAX,
                None => true,
            },
        },
{
    let ghost digits = count_digits(text@);
    let mut chars: Chars<'_> = text.chars();
    let mut pending: Option<char> = chars.next();
    let ghost mut read: int = 0;
    match pending {
        Some(c) => {
            if c == '+' {
                pending = chars.next();
                proof {
                    assert(text@.skip(0) =~= text@);
                    assert(text@.drop_first().skip(0) =~= text@.drop_first());
                }
            } else {
                proof {
                    assert(text@.skip(0) =~= text@);
                }
            }
        },
        None => {
            proof {
                assert(text@.skip(0) =~= text@);
            }
            return None;
        },
    }
    if pending.is_none() {
        return None;
    }
    let mut value: u64 = 0;
    assert(digits.take(0) =~= Seq::<char>::empty());
    while pending.is_some()
        invariant
            digits == count_digits(text@),
            digits.len() > 0,
            0 <= read <= digits.len(),
            match pending {
                Some(c) => read < digits.len() && digits[read] == c && chars.remaining()
                    == digits.skip(read + 1),
                None => read == digits.len(),
            },
            digits_value(digits.take(read)) == Some(value as nat),
        decreases digits.len() - read,
    {
        let c: char = pending.unwrap();
        let code: u32 = c as u32;
        proof {
            assert(digits.take(read + 1).drop_last() =~= digits.take(read));
            assert(digits.take(read + 1).last() == c);
            lemma_digits_prefix(digits, read + 1);
        }
        if code < 48 || code > 57 {
            return None;
        }
        let digit: u64 = (code - 48) as u64;
        let tens: u64 = match value.checked_mul(10) {
            Some(t) => t,
            None => {
                return None;
            },
        };
        value = match tens.checked_add(digit) {
            Some(v) => v,
            None => {
                return None;
            },
        };
        pending = chars.next();
        proof {
            if read + 1 < digits.len() {
                assert(digits.skip(read + 1).drop_first() =~= digits.skip(read + 2));
            }
            read = read + 1;
        }
    }
    proof {
        assert(digits.take(read) =~= digits);
    }
    Some(value)
}

} // verus!
