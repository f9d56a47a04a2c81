//! Settings read from environment variables: what their texts mean.

use crate::text::{
    blank, equal_ignoring_case, is_blank, parse_unsigned, parsed_unsigned, same_ignoring_case,
};
use vstd::prelude::*;

verus! {

/// The characters of a variable's value, if it is set.
pub open spec fn setting(value: Option<String>) -> Option<Seq<char>> {
    match value {
        Some(text) => Some(text@),
        None => None,
    }
}

/// The value says yes.
pub open spec fn means_true(value: Option<Seq<char>>) -> bool {
    match value {
        Some(text) => text == "1"@ || same_ignoring_case(text, "true"@),
        None => false,
    }
}

/// The number that the value holds, or the default where it holds none.
pub open spec fn number_or(value: Option<Seq<char>>, default: int, max: int) -> int {
    match value {
        Some(text) => match parsed_unsigned(text, max as nat) {
            Some(number) => number as int,
            None => default,
        },
        None => default,
    }
}

/// The nearest number in the range.
pub open spec fn clamped(number: int, min: int, max: int) -> int {
    if number < min {
        min
    } else if number > max {
        max
    } else {
        number
    }
}

/// Whether the value says yes.
pub fn env_bool(value: &Option<String>) -> (result: bool)
    ensures
        result == means_true(setting(*value)),
{
    match value {
        Some(text) => *text.as_str() == *"1" || equal_ignoring_case(text.as_str(), "true"),
        None => false,
    }
}

/// The number that the value holds, or the default.
pub fn env_u32(value: &Option<String>, default: u32) -> (number: u32)
    ensures
        number == number_or(setting(*value), default as int, u32::MAX as int),
{
    match value {
        Some(text) => match parse_unsigned(text.as_str(), u32::MAX as u64) {
            Some(number) => {
                assert(number <= u32::MAX);
                number as u32
            },
            None => default,
        },
        None => default,
    }
}

/// The number that the value holds, or the default.
pub fn env_u64(value: &Option<String>, default: u64) -> (number: u64)
    ensures
        number == number_or(setting(*value), default as int, u64::MAX as int),
{
    match value {
        Some(text) => match parse_unsigned(text.as_str(), u64::MAX) {
            Some(number) => number,
            None => default,
        },
        None => default,
    }
}

/// The number that the value holds, or the default, brought into the range.
pub fn env_usize(value: &Option<String>, default: usize, min: usize, max: usize) -> (number: usize)
    requires
        min <= max,
    ensures
        number == clamped(
            number_or(setting(*value), default as int, usize::MAX as int),
            min as int,
            max as int,
        ),
{
    let number: usize = match value {
        Some(text) => match parse_unsigned(text.as_str(), usize::MAX as u64) {
            Some(number) => number as usize,
            None => default,
        },
        None => default,
    };
    if number < min {
        min
    } else if number > max {
        max
    } else {
        number
    }
}

/// The value, unless it holds nothing but white space.
pub fn chosen_path(value: Option<String>) -> (path: Option<String>)
    ensures
        path == if value is Some && !is_blank(value->0@) {
            value
        } else {
            None
        },
{
    match value {
        Some(text) => if blank(text.as_str()) {
            None
        } else {
            Some(text)
        },
        None => None,
    }
}

} // verus!
