//! Numbers among the command line's arguments.

use crate::parser::text_view;
use vstd::prelude::*;
use vstd::string::StrSliceExecFns;
use vstd::string::StringExecFns;

verus! {

/// Whether `c` is one of the digits `0` to `9`.
pub open spec fn is_digit(c: char) -> bool {
    48 <= c as u32 <= 57
}

/// The number that a digit stands for.
pub open spec fn digit_value(c: char) -> nat {
    (c as u32 - 48) as nat
}

/// Whether `s` holds digits only.
pub open spec fn all_digits(s: Seq<char>) -> bool {
    forall|i: int| 0 <= i < s.len() ==> is_digit(#[trigger] s[i])
}

/// The number that a run of decimal digits stands for.
pub open spec fn decimal_value(digits: Seq<char>) -> nat
    decreases digits.len(),
{
    if digits.len() == 0 {
        0
    } else {
        decimal_value(digits.drop_last()) * 10 + digit_value(digits.last())
    }
}

/// `text` without the plus sign that may lead it.
pub open spec fn unsigned_digits(text: Seq<char>) -> Seq<char> {
    if text.len() > 0 && text[0] == '+' {
        text.drop_first()
    } else {
        text
    }
}

/// The number that `text` stands for: one or more decimal digits, which a
/// plus sign may lead, with a value that fits 64 bits. Any other text
/// stands for none.
pub open spec fn parsed_u64(text: Seq<char>) -> Option<u64> {
    let digits = unsigned_digits(text);
    if digits.len() > 0 && all_digits(digits) && decimal_value(digits) <= u64::MAX {
        Some(decimal_value(digits) as u64)
    } else {
        None
    }
}

/// What the argument of `flag` gives, where `value` is what follows the
/// flag on the command line: the number, which has to be greater than zero,
/// or the message that says what is wrong.
pub open spec fn arg_value(flag: Seq<char>, value: Option<Seq<char>>) -> Result<u64, Seq<char>> {
    match value {
        None => Err("Missing value for "@ + flag),
        Some(raw) => match parsed_u64(raw) {
            None => Err("Invalid numeric value for "@ + flag + ": "@ + raw),
            Some(number) => if number == 0 {
                Err(flag + " must be greater than zero"@)
            } else {
                Ok(number)
            },
        },
    }
}

/// A prefix of a run of digits stands for no more than the run.
proof fn lemma_decimal_value_grows(digits: Seq<char>, k: int)
    requires
        0 <= k <= digits.len(),
    ensures
        decimal_value(digits.take(k)) <= decimal_value(digits),
    decreases digits.len() - k,
{
    if k == digits.len() {
        assert(digits.take(k) =~= digits);
    } else {
        lemma_decimal_value_grows(digits.drop_last(), k);
        assert(digits.drop_last().take(k) =~= digits.take(k));
    }
}

/// Reads a decimal number.
pub fn parse_u64(text: &str) -> (value: Option<u64>)
    ensures
        value == parsed_u64(text@),
{
    let n = text.unicode_len();
    let digits: &str = if n > 0 && text.get_char(0) == '+' {
        assert(text@.subrange(1, n as int) =~= text@.drop_first());
        text.substring_char(1, n)
    } else {
        text
    };
    if digits.is_empty() {
        return None;
    }
    let mut value: u64 = 0;
    assert(digits@.take(0) =~= Seq::<char>::empty());
    for c in it: digits.chars()
        invariant
            it.seq() == digits@,
            digits@ == unsigned_digits(text@),
            digits@.len() > 0,
            all_digits(digits@.take(it.index() as int)),
            value == decimal_value(digits@.take(it.index() as int)),
    {
        let ghost k = it.index() as int;
        let ghost read = digits@.take(k + 1);
        proof {
            assert(read.drop_last() =~= digits@.take(k));
            assert(read.last() == c);
        }
        let code: u32 = c as u32;
        if code < 48 || code > 57 {
            assert(!is_digit(digits@[k]));
            return None;
        }
        let digit: u64 = (code - 48) as u64;
        if value > (u64::MAX - digit) / 10 {
            proof {
                lemma_decimal_value_grows(digits@, k + 1);
            }
            return None;
        }
        value = value * 10 + digit;
        assert forall|j: int| 0 <= j < read.len() implies is_digit(#[trigger] read[j]) by {
            if j < k {
                assert(read[j] == digits@.take(k)[j]);
            }
        }
    }
    assert(digits@.take(digits@.len() as int) =~= digits@);
    Some(value)
}

/// Reads the number that has to follow `flag`.
pub fn parse_u64_arg(flag: &str, value: Option<String>) -> (parsed: Result<u64, String>)
    ensures
        match parsed {
            Ok(number) => arg_value(flag@, text_view(value)) == Ok::<u64, Seq<char>>(number),
            Err(message) => arg_value(flag@, text_view(value)) == Err::<u64, Seq<char>>(
                message@,
            ),
        },
{
    match value {
        None => Err("Missing value for ".to_owned().concat(flag)),
        Some(raw) => match parse_u64(raw.as_str()) {
            None => Err(
                "Invalid numeric value for ".to_owned().concat(flag).concat(": ").concat(
                    raw.as_str(),
                ),
            ),
            Some(number) => if number == 0 {
                Err(flag.to_owned().concat(" must be greater than zero"))
            } else {
                Ok(number)
            },
        },
    }
}

} // verus!
