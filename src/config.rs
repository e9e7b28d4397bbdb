//! Start-up settings: the severity threshold and the hostname.
use crate::entry::Level;
use std::str::FromStr;
use vstd::prelude::*;

verus! {

/// Threshold used when none is configured or the setting is invalid.
pub const DEFAULT_LOG_LEVEL: Level = Level::Warn;

/// `a` and `b` are equal, where an ASCII letter also matches its other case.
pub open spec fn same_char_ignoring_ascii_case(a: char, b: char) -> bool {
    ||| a == b
    ||| (65 <= (a as u32) <= 90 && (b as u32) == (a as u32) + 32)
    ||| (65 <= (b as u32) <= 90 && (a as u32) == (b as u32) + 32)
}

/// `a` and `b` are equal up to the case of ASCII letters.
pub open spec fn eq_ignoring_ascii_case(a: Seq<char>, b: Seq<char>) -> bool {
    a.len() == b.len() && forall|i: int|
        0 <= i < a.len() ==> same_char_ignoring_ascii_case(#[trigger] a[i], b[i])
}

/// The level that the setting `s` names, if any: one of the five level names
/// in any mix of ASCII case.
pub open spec fn level_named(s: Seq<char>) -> Option<Level> {
    if eq_ignoring_ascii_case("ERROR"@, s) {
        Some(Level::Error)
    } else if eq_ignoring_ascii_case("WARN"@, s) {
        Some(Level::Warn)
    } else if eq_ignoring_ascii_case("INFO"@, s) {
        Some(Level::Info)
    } else if eq_ignoring_ascii_case("DEBUG"@, s) {
        Some(Level::Debug)
    } else if eq_ignoring_ascii_case("TRACE"@, s) {
        Some(Level::Trace)
    } else {
        None
    }
}

/// Relies on `log::Level::from_str`: it compares `s` with "ERROR", "WARN",
/// "INFO", "DEBUG" and "TRACE" in that order, ignoring ASCII case, and returns
/// the first level that matches.
#[verifier::external_body]
fn parse_level(s: &str) -> (r: Option<Level>)
    ensures
        r == level_named(s@),
{
    match log::Level::from_str(s) {
        Ok(log::Level::Error) => Some(Level::Error),
        Ok(log::Level::Warn) => Some(Level::Warn),
        Ok(log::Level::Info) => Some(Level::Info),
        Ok(log::Level::Debug) => Some(Level::Debug),
        Ok(log::Level::Trace) => Some(Level::Trace),
        Err(_) => None,
    }
}

/// The threshold selected by the setting `value`, and whether the setting was
/// present but invalid (which deserves a diagnostic).
pub open spec fn configured_level(value: Option<Seq<char>>) -> (Level, bool) {
    match value {
        None => (DEFAULT_LOG_LEVEL, false),
        Some(s) => match level_named(s) {
            Some(l) => (l, false),
            None => (DEFAULT_LOG_LEVEL, true),
        },
    }
}

/// Picks the severity threshold from the setting `value` (absent when the
/// setting is not there); an invalid value falls back to the default.
pub fn level_from_setting(value: Option<&str>) -> (r: (Level, bool))
    ensures
        r == configured_level(crate::filter::option_str_view(value)),
{
    match value {
        None => (DEFAULT_LOG_LEVEL, false),
        Some(s) => match parse_level(s) {
            Some(l) => (l, false),
            None => (DEFAULT_LOG_LEVEL, true),
        },
    }
}

/// Returns the hostname read at start-up, or a placeholder when it could not
/// be read as a string.
pub fn hostname_or_placeholder(name: Option<String>) -> (r: String)
    ensures
        name matches Some(n) ==> r@ == n@,
        name is None ==> r@ == "invalid-hostname"@,
{
    proof {
        reveal_strlit("invalid-hostname");
    }
    match name {
        Some(n) => n,
        None => "invalid-hostname".to_owned(),
    }
}

} // verus!
