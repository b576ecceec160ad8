use humanize_datetime::decomposition::AccuracyMode;
use humanize_datetime::render::VerbosityMode;
use humanize_datetime::timestamp::{
    humanize_since, humanize_timestamp, parse_timestamp, seconds_between, InvalidTimestamp,
};

#[test]
fn reads_a_timestamp_with_an_offset() {
    assert_eq!(parse_timestamp("Tue, 1 Jul 2003 10:52:37 +0200"), Ok(1_057_049_557));
}

#[test]
fn reads_a_timestamp_with_a_named_zone() {
    assert_eq!(parse_timestamp("Wed, 18 Feb 2015 23:16:09 GMT"), Ok(1_424_301_369));
}

#[test]
fn reads_the_start_of_unix_time() {
    assert_eq!(parse_timestamp("Thu, 1 Jan 1970 00:00:00 +0000"), Ok(0));
    assert_eq!(parse_timestamp("1 Jan 1970 01:00:00 +0100"), Ok(0));
    assert_eq!(parse_timestamp("Wed, 31 Dec 1969 23:59:30 +0000"), Ok(-30));
}

#[test]
fn rejects_what_is_no_timestamp() {
    assert_eq!(parse_timestamp(""), Err(InvalidTimestamp));
    assert_eq!(parse_timestamp("yesterday"), Err(InvalidTimestamp));
    assert_eq!(parse_timestamp("1057049557"), Err(InvalidTimestamp));
    assert_eq!(parse_timestamp("2003-07-01T10:52:37+02:00"), Err(InvalidTimestamp));
    assert_eq!(parse_timestamp("Tue, 1 Jul 2003 10:52:37"), Err(InvalidTimestamp));
    assert_eq!(parse_timestamp("Mon, 1 Jul 2003 10:52:37 +0200"), Err(InvalidTimestamp));
    assert_eq!(parse_timestamp("Tue, 31 Jun 2003 10:52:37 +0200"), Err(InvalidTimestamp));
}

#[test]
fn the_gap_between_two_moments_has_no_sign() {
    assert_eq!(seconds_between(10, 40), 30);
    assert_eq!(seconds_between(40, 10), 30);
    assert_eq!(seconds_between(-40, -10), 30);
    assert_eq!(seconds_between(-15, 15), 30);
    assert_eq!(seconds_between(7, 7), 0);
}

#[test]
fn the_gap_between_the_farthest_moments_fits() {
    assert_eq!(seconds_between(i64::MIN, i64::MAX), u64::MAX);
    assert_eq!(seconds_between(i64::MAX, i64::MIN), u64::MAX);
    assert_eq!(seconds_between(i64::MIN, 0), 9_223_372_036_854_775_808);
    assert_eq!(seconds_between(0, i64::MIN), 9_223_372_036_854_775_808);
    assert_eq!(seconds_between(0, i64::MAX), 9_223_372_036_854_775_807);
}

#[test]
fn thirty_hours_since_a_moment() {
    let then = 1_057_049_557;
    let now = then + 108_000;
    assert_eq!(humanize_since(then, now, AccuracyMode::Rough, VerbosityMode::Short, ' '), "1d");
    assert_eq!(humanize_since(then, now, AccuracyMode::Rough, VerbosityMode::Long, ' '), "1 day");
    assert_eq!(
        humanize_since(then, now, AccuracyMode::Precise, VerbosityMode::Short, ' '),
        "1d 6h"
    );
    assert_eq!(
        humanize_since(then, now, AccuracyMode::Precise, VerbosityMode::Long, ' '),
        "1 day and 6 hours"
    );
}

#[test]
fn a_moment_ahead_reads_like_one_behind() {
    let now = 1_057_049_557;
    let then = now + 108_000;
    assert_eq!(
        humanize_since(then, now, AccuracyMode::Precise, VerbosityMode::Short, ' '),
        "1d 6h"
    );
    assert_eq!(
        humanize_since(then, now, AccuracyMode::Precise, VerbosityMode::Long, ' '),
        "1 day and 6 hours"
    );
    assert_eq!(humanize_since(now, now, AccuracyMode::Precise, VerbosityMode::Long, ' '), "now");
}

#[test]
fn thirty_hours_since_a_timestamp() {
    let now = 1_057_049_557 + 108_000;
    assert_eq!(
        humanize_timestamp(
            "Tue, 1 Jul 2003 10:52:37 +0200",
            now,
            AccuracyMode::Precise,
            VerbosityMode::Short,
            ' '
        ),
        Ok("1d 6h".to_string())
    );
    assert_eq!(
        humanize_timestamp(
            "Tue, 1 Jul 2003 10:52:37 +0200",
            now,
            AccuracyMode::Rough,
            VerbosityMode::Long,
            ' '
        ),
        Ok("1 day".to_string())
    );
}

#[test]
fn the_offset_of_a_timestamp_counts() {
    let now = 1_057_049_557;
    assert_eq!(
        humanize_timestamp(
            "Tue, 1 Jul 2003 10:52:37 +0000",
            now,
            AccuracyMode::Precise,
            VerbosityMode::Short,
            ' '
        ),
        Ok("2h".to_string())
    );
    assert_eq!(
        humanize_timestamp(
            "Tue, 1 Jul 2003 10:52:37 +0200",
            now,
            AccuracyMode::Precise,
            VerbosityMode::Short,
            ' '
        ),
        Ok("now".to_string())
    );
}

#[test]
fn no_text_for_what_is_no_timestamp() {
    for accuracy in [AccuracyMode::Rough, AccuracyMode::Precise] {
        for verbosity in [VerbosityMode::Long, VerbosityMode::Short] {
            assert_eq!(
                humanize_timestamp("the day before yesterday", 0, accuracy, verbosity, ' '),
                Err(InvalidTimestamp)
            );
        }
    }
}

#[test]
fn rejects_moments_that_cannot_be() {
    assert_eq!(parse_timestamp("Sat, 30 Feb 2008 10:00:00 +0000"), Err(InvalidTimestamp));
    assert_eq!(parse_timestamp("1 Jan 2000 25:00:00 +0000"), Err(InvalidTimestamp));
    assert_eq!(parse_timestamp("1 Jan 2000 10:61:00 +0000"), Err(InvalidTimestamp));
    assert_eq!(
        parse_timestamp("1 Jan 99999999999999999999 00:00:00 +0000"),
        Err(InvalidTimestamp)
    );
    assert_eq!(parse_timestamp("1 Jan 2000 00:00:00 +9960"), Err(InvalidTimestamp));
}

#[test]
fn reads_years_written_short() {
    assert_eq!(parse_timestamp("1 Jan 70 00:00:00 +0000"), Ok(0));
    assert_eq!(parse_timestamp("1 Jan 00 00:00:00 +0000"), Ok(946_684_800));
}
