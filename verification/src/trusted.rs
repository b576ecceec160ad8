//! What this library takes on trust.
//!
//! Everything else in the library is proved; the contracts in this file
//! are believed. Each says of a function written elsewhere no more than
//! its documentation does.
use vstd::prelude::*;

verus! {

/// `String::push` of the standard library appends the given character to
/// the end of the string and leaves what was there before untouched.
pub assume_specification[ String::push ](text: &mut String, ch: char)
    ensures
        final(text)@ == old(text)@.push(ch),
;

/// `chrono::ParseError`: what `chrono` reports for text that it cannot
/// read as a date and time. Nothing is known of what is inside.
#[verifier::external_type_specification]
#[verifier::external_body]
pub struct ExParseError(chrono::ParseError);

/// The Unix time in seconds of the moment that `text` denotes when
/// `chrono::DateTime::parse_from_rfc2822` reads it as an RFC 2822 date and
/// time, or `None` where that function rejects `text`.
pub uninterp spec fn rfc2822_timestamp(text: Seq<char>) -> Option<i64>;

/// Calls `chrono::DateTime::parse_from_rfc2822` on `text` and, where that
/// succeeds, `chrono::DateTime::timestamp` on the moment it read.
///
/// Believed of the two: the outcome depends on `text` alone, so it has a
/// name, `rfc2822_timestamp`. It is the error that `chrono` reports
/// exactly where the name is `None`, and else the seconds that it is.
#[verifier::external_body]
pub(crate) fn read_rfc2822(text: &str) -> (read: Result<i64, chrono::ParseError>)
    ensures
        match read {
            Ok(seconds) => rfc2822_timestamp(text@) == Some(seconds),
            Err(_) => rfc2822_timestamp(text@) is None,
        },
{
    match chrono::DateTime::parse_from_rfc2822(text) {
        Ok(moment) => Ok(moment.timestamp()),
        Err(error) => Err(error),
    }
}

} // verus!
