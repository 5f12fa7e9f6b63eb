//! Settings read from the environment: a given value or a default, read as a
//! number.

use vstd::prelude::*;
use vstd::string::StringExecFns;

use crate::text::{parse_decimal, parse_unsigned, same_result, IntErrorKind};

verus! {

/// The text of a setting: the value given, or else the default.
pub open spec fn setting_text(value: Option<Seq<char>>, default: Seq<char>) -> Seq<char> {
    match value {
        Some(v) => v,
        None => default,
    }
}

/// The view of an optional text.
pub open spec fn opt_view(value: Option<&str>) -> Option<Seq<char>> {
    match value {
        Some(v) => Some(v@),
        None => None,
    }
}

/// The text of a setting: `value` where it was given, else `default`.
pub fn env_or(value: Option<&str>, default: &str) -> (r: String)
    ensures
        r@ == setting_text(opt_view(value), default@),
{
    match value {
        Some(v) => String::from_str(v),
        None => String::from_str(default),
    }
}

/// A setting read as a `u64`: `value` where it was given, else `default`.
pub fn env_parse_u64(value: Option<&str>, default: &str) -> (r: Result<u64, IntErrorKind>)
    ensures
        same_result(r, parse_unsigned(setting_text(opt_view(value), default@), u64::MAX as nat)),
{
    let text = env_or(value, default);
    parse_decimal(text.as_str(), u64::MAX)
}

/// A setting read as a `usize`: `value` where it was given, else `default`.
pub fn env_parse_usize(value: Option<&str>, default: &str) -> (r: Result<usize, IntErrorKind>)
    ensures
        match parse_unsigned(setting_text(opt_view(value), default@), usize::MAX as nat) {
            Ok(v) => r == Ok::<usize, IntErrorKind>(v as usize) && v <= usize::MAX,
            Err(e) => r == Err::<usize, IntErrorKind>(e),
        },
{
    let text = env_or(value, default);
    let max: u64 = usize::MAX as u64;
    assert(max as nat == usize::MAX as nat);
    let ghost expected = parse_unsigned(setting_text(opt_view(value), default@), usize::MAX as nat);
    let parsed = parse_decimal(text.as_str(), max);
    assert(same_result(parsed, expected));
    match parsed {
        Ok(v) => {
            assert(expected matches Ok(w) && w == v);
            Ok(v as usize)
        },
        Err(e) => Err(e),
    }
}

} // verus!
