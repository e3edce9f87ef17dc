use chrono::{DateTime, Utc};
use regex::Regex;
use vstd::prelude::*;

verus! {

#[verifier::external_type_specification]
#[verifier::external_body]
pub struct ExRegexError(regex::Error);

#[verifier::external_type_specification]
#[verifier::external_body]
pub struct ExTimeParseError(chrono::format::ParseError);

/// The pattern after which moments are written for the store.
pub const TIMESTAMP_PATTERN: &'static str = "%Y-%m-%d %H:%M:%S";

/// Whether `Regex::new` accepts `pattern`.
pub uninterp spec fn pattern_compiles(pattern: Seq<char>) -> bool;

/// Whether the regular expression `pattern` matches somewhere in `haystack`.
pub uninterp spec fn pattern_found(pattern: Seq<char>, haystack: Seq<char>) -> bool;

/// The moment that `text` states, written in UTC after `pattern`; `None`
/// where chrono reads no moment from `text`.
pub uninterp spec fn utc_rewritten(text: Seq<char>, pattern: Seq<char>) -> Option<Seq<char>>;

/// Compiles `pattern` with `regex::Regex::new` and searches `haystack` with
/// `Regex::is_match`.
///
/// Not proved: that the outcome is the same for the same two texts. The
/// error of `Regex::new` comes back as it is; a match is reported as
/// `pattern_found` has it.
#[verifier::external_body]
pub(crate) fn regex_is_match(pattern: &str, haystack: &str) -> (r: Result<bool, regex::Error>)
    ensures
        r is Ok <==> pattern_compiles(pattern@),
        r matches Ok(found) ==> found == pattern_found(pattern@, haystack@),
{
    match Regex::new(pattern) {
        Ok(re) => Ok(re.is_match(haystack)),
        Err(e) => Err(e),
    }
}

/// Reads `text` as a `chrono::DateTime<Utc>` with its `FromStr` and writes
/// the moment with `DateTime::format`.
///
/// Not proved: that the outcome depends on the two texts alone. The pattern
/// is held to the one that the store takes, which chrono can write; the
/// error of the parser comes back as it is.
#[verifier::external_body]
pub(crate) fn rewrite_utc(text: &str, pattern: &str) -> (r: Result<String, chrono::ParseError>)
    requires
        pattern@ == TIMESTAMP_PATTERN@,
    ensures
        r is Ok <==> utc_rewritten(text@, pattern@) is Some,
        r matches Ok(written) ==> utc_rewritten(text@, pattern@) == Some(written@),
{
    match text.parse::<DateTime<Utc>>() {
        Ok(moment) => Ok(moment.format(pattern).to_string()),
        Err(e) => Err(e),
    }
}

} // verus!
