//! From a written timestamp and the present moment to relative-time text.
//!
//! Moments are Unix times in whole seconds. A timestamp is read as an
//! RFC 2822 date and time, such as `Tue, 1 Jul 2003 10:52:37 +0200`.
use crate::decomposition::AccuracyMode;
use crate::humanize::{humanize, humanized};
use crate::render::VerbosityMode;
use crate::trusted::{read_rfc2822, rfc2822_timestamp};
use vstd::prelude::*;

verus! {

/// The text was not an RFC 2822 date and time.
#[derive(Clone, Copy, Debug, PartialEq, Eq, Structural)]
pub struct InvalidTimestamp;

/// The seconds that lie between two moments, whichever comes first.
pub open spec fn spec_seconds_between(then: i64, now: i64) -> u64 {
    if now >= then {
        (now - then) as u64
    } else {
        (then - now) as u64
    }
}

/// The text for the time between `then` and `now`.
pub open spec fn humanized_since(
    then: i64,
    now: i64,
    accuracy: AccuracyMode,
    verbosity: VerbosityMode,
    separator: char,
) -> Seq<char> {
    humanized(spec_seconds_between(then, now), accuracy, verbosity, separator)
}

/// Reads an RFC 2822 date and time and gives its Unix time in seconds.
pub fn parse_timestamp(text: &str) -> (parsed: Result<i64, InvalidTimestamp>)
    ensures
        parsed == match rfc2822_timestamp(text@) {
            Some(seconds) => Ok::<i64, InvalidTimestamp>(seconds),
            None => Err(InvalidTimestamp),
        },
{
    match read_rfc2822(text) {
        Ok(seconds) => Ok(seconds),
        Err(_) => Err(InvalidTimestamp),
    }
}

/// The seconds that lie between two moments. A moment that lies ahead of
/// `now` is as far away as one that lies equally far behind.
#[verifier::when_used_as_spec(spec_seconds_between)]
pub fn seconds_between(then: i64, now: i64) -> (elapsed: u64)
    ensures
        elapsed == spec_seconds_between(then, now),
        elapsed == now - then || elapsed == then - now,
{
    let gap: i128 = now as i128 - then as i128;
    if gap >= 0 {
        gap as u64
    } else {
        (-gap) as u64
    }
}

/// Renders the time between the moment `then` and the moment `now`.
pub fn humanize_since(
    then: i64,
    now: i64,
    accuracy: AccuracyMode,
    verbosity: VerbosityMode,
    separator: char,
) -> (text: String)
    ensures
        text@ == humanized_since(then, now, accuracy, verbosity, separator),
{
    humanize(seconds_between(then, now), accuracy, verbosity, separator)
}

/// Renders the time between the moment that `timestamp` denotes and the
/// moment `now`.
///
/// Fails exactly where `timestamp` is not an RFC 2822 date and time, and
/// then gives no text at all.
pub fn humanize_timestamp(
    timestamp: &str,
    now: i64,
    accuracy: AccuracyMode,
    verbosity: VerbosityMode,
    separator: char,
) -> (outcome: Result<String, InvalidTimestamp>)
    ensures
        match rfc2822_timestamp(timestamp@) {
            Some(then) => outcome matches Ok(text) && text@ == humanized_since(
                then,
                now,
                accuracy,
                verbosity,
                separator,
            ),
            None => outcome == Err::<String, InvalidTimestamp>(InvalidTimestamp),
        },
{
    match parse_timestamp(timestamp) {
        Ok(then) => Ok(humanize_since(then, now, accuracy, verbosity, separator)),
        Err(failure) => Err(failure),
    }
}

} // verus!
