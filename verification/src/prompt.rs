//! What an answer typed at a prompt comes to: the answer itself, a default
//! in the place of an empty one, or a failure.

use crate::text::{
    all_digits, chars_of, digits_value, is_digit, lemma_digits_value_grows, trim, trimmed,
};
use vstd::prelude::*;

verus! {

/// The failure for an empty answer where nothing stands in for it.
pub open spec fn empty_not_allowed() -> Seq<char> {
    "An empty value is not allowed"@
}

/// What stands in for an empty answer: the failure that the prompt set for
/// it comes first, then the default, then the general failure.
pub open spec fn for_empty<T>(
    default_value: Option<T>,
    error_when_empty: Option<Seq<char>>,
) -> Result<T, Seq<char>> {
    match error_when_empty {
        Some(error) => Err(error),
        None => match default_value {
            Some(value) => Ok(value),
            None => Err(empty_not_allowed()),
        },
    }
}

/// What an answer to a prompt for a text comes to: the answer without the
/// white space around it, or what stands in for an empty one.
pub open spec fn resolved_text(
    input: Seq<char>,
    default_value: Option<Seq<char>>,
    error_when_empty: Option<Seq<char>>,
) -> Result<Seq<char>, Seq<char>> {
    if trimmed(input).len() == 0 {
        for_empty(default_value, error_when_empty)
    } else {
        Ok(trimmed(input))
    }
}

/// The view of a text or failure.
pub open spec fn text_result(result: Result<String, String>) -> Result<Seq<char>, Seq<char>> {
    match result {
        Ok(text) => Ok(text@),
        Err(error) => Err(error@),
    }
}

/// The view of a number or failure.
pub open spec fn number_result<T>(result: Result<T, String>) -> Result<T, Seq<char>> {
    match result {
        Ok(number) => Ok(number),
        Err(error) => Err(error@),
    }
}

/// What stands in for an empty answer.
fn stand_in<T>(default_value: Option<T>, error_when_empty: Option<String>) -> (result: Result<
    T,
    String,
>)
    ensures
        number_result(result) == for_empty(
            default_value,
            crate::results::opt_text(error_when_empty),
        ),
{
    match error_when_empty {
        Some(error) => Err(error),
        None => match default_value {
            Some(value) => Ok(value),
            None => Err(String::from_str("An empty value is not allowed")),
        },
    }
}

/// Reads the answer to a prompt for a text.
pub fn resolve_string(
    input: &str,
    default_value: Option<String>,
    error_when_empty: Option<String>,
) -> (result: Result<String, String>)
    ensures
        text_result(result) == resolved_text(
            input@,
            crate::results::opt_text(default_value),
            crate::results::opt_text(error_when_empty),
        ),
{
    let answer = trim(input);
    if answer.as_str().is_empty() {
        match stand_in(default_value, error_when_empty) {
            Ok(text) => Ok(text),
            Err(error) => Err(error),
        }
    } else {
        Ok(answer)
    }
}

/// The digits of a number as typed: what follows an optional plus sign.
pub open spec fn unsigned_digits(s: Seq<char>) -> Seq<char> {
    if s.len() > 0 && s[0] == '+' {
        s.subrange(1, s.len() as int)
    } else {
        s
    }
}

/// The number that a text denotes: one or more ASCII digits after an
/// optional plus sign, with a value of at most `max`.
pub open spec fn unsigned_value(s: Seq<char>, max: u64) -> Option<u64> {
    let digits = unsigned_digits(s);
    if digits.len() > 0 && all_digits(digits) && digits_value(digits) <= max {
        Some(digits_value(digits) as u64)
    } else {
        None
    }
}

/// Reads a number of at most `max` from `text`.
pub fn parse_unsigned(text: &str, max: u64) -> (value: Option<u64>)
    ensures
        value == unsigned_value(text@, max),
{
    let chars = chars_of(text);
    let start: usize = if chars.len() > 0 && chars[0] == '+' {
        1
    } else {
        0
    };
    let ghost digits = unsigned_digits(text@);
    proof {
        assert(digits =~= chars@.subrange(start as int, chars.len() as int));
    }
    if start == chars.len() {
        return None;
    }
    let mut acc: u64 = 0;
    let mut i: usize = start;
    proof {
        assert(digits.take(0) =~= Seq::<char>::empty());
    }
    while i < chars.len()
        invariant
            start <= i <= chars.len(),
            digits == chars@.subrange(start as int, chars.len() as int),
            digits == unsigned_digits(text@),
            all_digits(digits.take(i - start)),
            acc == digits_value(digits.take(i - start)),
            acc <= max,
        decreases chars.len() - i,
    {
        let c = chars[i];
        proof {
            assert(digits.take(i - start + 1).drop_last() =~= digits.take(i - start));
            assert(digits.take(i - start + 1).last() == c);
            assert(digits[i - start] == c);
        }
        if !('0' <= c && c <= '9') {
            assert(!is_digit(digits[i - start]));
            return None;
        }
        let d: u64 = (c as u32 - '0' as u32) as u64;
        let next: u128 = acc as u128 * 10 + d as u128;
        if next > max as u128 {
            proof {
                lemma_digits_value_grows(digits, i - start + 1);
            }
            return None;
        }
        acc = next as u64;
        proof {
            assert forall|j: int| 0 <= j < i - start + 1 implies is_digit(
                #[trigger] digits.take(i - start + 1)[j],
            ) by {
                if j < i - start {
                    assert(digits.take(i - start)[j] == digits.take(i - start + 1)[j]);
                }
            }
        }
        i += 1;
    }
    proof {
        assert(digits.take(chars.len() - start) =~= digits);
    }
    Some(acc)
}

/// The failure for an answer that is no number.
pub open spec fn not_a_number(answer: Seq<char>) -> Seq<char> {
    "Failed to parse "@ + answer + " as a number"@
}

/// What an answer to a prompt for a number of at most `max` comes to: the
/// number that the answer denotes without the white space around it, the
/// failure for an answer that denotes none, or what stands in for an empty
/// answer.
pub open spec fn resolved_number(
    input: Seq<char>,
    default_value: Option<u64>,
    error_when_empty: Option<Seq<char>>,
    max: u64,
) -> Result<u64, Seq<char>> {
    if trimmed(input).len() == 0 {
        for_empty(default_value, error_when_empty)
    } else {
        match unsigned_value(trimmed(input), max) {
            Some(value) => Ok(value),
            None => Err(not_a_number(trimmed(input))),
        }
    }
}

/// Reads the answer to a prompt for a number of at most `max`.
pub fn resolve_number(
    input: &str,
    default_value: Option<u64>,
    error_when_empty: Option<String>,
    max: u64,
) -> (result: Result<u64, String>)
    ensures
        number_result(result) == resolved_number(
            input@,
            default_value,
            crate::results::opt_text(error_when_empty),
            max,
        ),
{
    let answer = trim(input);
    if answer.as_str().is_empty() {
        stand_in(default_value, error_when_empty)
    } else {
        match parse_unsigned(answer.as_str(), max) {
            Some(value) => Ok(value),
            None => {
                let mut message = String::from_str("Failed to parse ");
                message.append(answer.as_str());
                message.append(" as a number");
                Err(message)
            },
        }
    }
}

/// Reads the answer to a prompt for a port.
pub fn resolve_port(
    input: &str,
    default_value: Option<u16>,
    error_when_empty: Option<String>,
) -> (result: Result<u16, String>)
    ensures
        match resolved_number(
            input@,
            match default_value {
                Some(port) => Some(port as u64),
                None => None,
            },
            crate::results::opt_text(error_when_empty),
            0xffff,
        ) {
            Ok(value) => result == Ok::<u16, String>(value as u16),
            Err(error) => result is Err && result->Err_0@ == error,
        },
{
    let default_value: Option<u64> = match default_value {
        Some(port) => Some(port as u64),
        None => None,
    };
    match resolve_number(input, default_value, error_when_empty, 0xffff) {
        Ok(value) => Ok(value as u16),
        Err(error) => Err(error),
    }
}

/// Reads the answer to a prompt for the place of an item in a list, counted
/// from one.
pub fn resolve_position(input: &str, error_when_empty: Option<String>) -> (result: Result<
    usize,
    String,
>)
    ensures
        match resolved_number(
            input@,
            None,
            crate::results::opt_text(error_when_empty),
            usize::MAX as u64,
        ) {
            Ok(value) => result == Ok::<usize, String>(value as usize),
            Err(error) => result is Err && result->Err_0@ == error,
        },
{
    match resolve_number(input, None, error_when_empty, usize::MAX as u64) {
        Ok(value) => Ok(value as usize),
        Err(error) => Err(error),
    }
}

/// The zero-based index for a place counted from one; `None` for the place
/// zero, which no item has.
pub fn position_to_index(position: usize) -> (index: Option<usize>)
    ensures
        index == if position == 0 {
            None
        } else {
            Some((position - 1) as usize)
        },
{
    if position == 0 {
        None
    } else {
        Some(position - 1)
    }
}

/// What is said of the place zero in a list of `what`: no item has it.
pub open spec fn no_such_place(what: Seq<char>) -> Seq<char> {
    "Index 0 does not correspond to a "@ + what
}

/// The zero-based index for a place that was typed, counted from one, in a
/// list of `what`; the place zero is refused with the words that an index
/// past the end of such a list is refused with.
pub fn index_of_position(position: usize, what: &str) -> (index: Result<usize, String>)
    ensures
        match index {
            Ok(at) => position > 0 && at == position - 1,
            Err(error) => position == 0 && error@ == no_such_place(what@),
        },
{
    match position_to_index(position) {
        Some(at) => Ok(at),
        None => {
            let mut message = String::from_str("Index 0 does not correspond to a ");
            message.append(what);
            Err(message)
        },
    }
}

} // verus!
