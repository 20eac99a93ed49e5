//! The log verbosity of the configuration, parsed by the `log` crate.

use vstd::prelude::*;
use vstd::string::StringExecFns;

verus! {

#[verifier::external_type_specification]
pub struct ExLevelFilter(log::LevelFilter);

/// Upper-case ASCII letters folded to lower case, other characters kept.
pub open spec fn fold_ascii(c: char) -> int {
    if 65 <= c as u32 <= 90 {
        c as u32 + 32
    } else {
        c as u32 as int
    }
}

/// `a` and `b` are equal up to the case of ASCII letters.
pub open spec fn eq_ignore_ascii_case(a: Seq<char>, b: Seq<char>) -> bool {
    a.len() == b.len() && forall|i: int| 0 <= i < a.len() ==> fold_ascii(a[i]) == fold_ascii(b[i])
}

/// The level filter whose name `s` is, letters in any case.
pub open spec fn level_filter_named(s: Seq<char>) -> Option<log::LevelFilter> {
    if eq_ignore_ascii_case(s, "OFF"@) {
        Some(log::LevelFilter::Off)
    } else if eq_ignore_ascii_case(s, "ERROR"@) {
        Some(log::LevelFilter::Error)
    } else if eq_ignore_ascii_case(s, "WARN"@) {
        Some(log::LevelFilter::Warn)
    } else if eq_ignore_ascii_case(s, "INFO"@) {
        Some(log::LevelFilter::Info)
    } else if eq_ignore_ascii_case(s, "DEBUG"@) {
        Some(log::LevelFilter::Debug)
    } else if eq_ignore_ascii_case(s, "TRACE"@) {
        Some(log::LevelFilter::Trace)
    } else {
        None
    }
}

/// Relies on `<log::LevelFilter as FromStr>::from_str`: it compares the input,
/// ignoring ASCII case, with "OFF", "ERROR", "WARN", "INFO", "DEBUG", "TRACE"
/// and returns the matching filter, else its error, here as the text that its
/// `Display` writes, a constant.
#[verifier::external_body]
fn parse_level_filter(s: &str) -> (r: Result<log::LevelFilter, String>)
    ensures
        match r {
            Ok(f) => level_filter_named(s@) == Some(f),
            Err(msg) => level_filter_named(s@).is_none() && msg@ == level_parse_error(),
        },
{
    <log::LevelFilter as std::str::FromStr>::from_str(s).map_err(|e| e.to_string())
}

/// What `log::ParseLevelError` displays.
pub open spec fn level_parse_error() -> Seq<char> {
    "attempted to convert a string that doesn't match an existing log level"@
}

/// A log level filter as the configuration names it.
#[derive(Debug)]
pub struct LevelFilterSerde(pub log::LevelFilter);

impl LevelFilterSerde {
    pub fn inner(&self) -> (r: log::LevelFilter)
        ensures
            r == self.0,
    {
        self.0
    }

    /// Parses a level filter by name; the error explains what failed.
    pub fn try_from(value: String) -> (r: Result<LevelFilterSerde, String>)
        ensures
            match r {
                Ok(l) => level_filter_named(value@) == Some(l.0),
                Err(msg) => level_filter_named(value@).is_none() && msg@
                    == "Couldn't parse log level filter: "@ + level_parse_error(),
            },
    {
        match parse_level_filter(value.as_str()) {
            Ok(f) => Ok(LevelFilterSerde(f)),
            Err(e) => {
                let msg = String::from_str("Couldn't parse log level filter: ");
                let msg = msg.concat(e.as_str());
                Err(msg)
            },
        }
    }
}

} // verus!
