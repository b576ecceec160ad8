use humanize_datetime::decomposition::AccuracyMode;
use humanize_datetime::humanize::humanize;
use humanize_datetime::render::VerbosityMode;

/// Short rough, long rough, short precise, long precise, in that order.
fn four_ways(elapsed: u64) -> [String; 4] {
    [
        humanize(elapsed, AccuracyMode::Rough, VerbosityMode::Short, ' '),
        humanize(elapsed, AccuracyMode::Rough, VerbosityMode::Long, ' '),
        humanize(elapsed, AccuracyMode::Precise, VerbosityMode::Short, ' '),
        humanize(elapsed, AccuracyMode::Precise, VerbosityMode::Long, ' '),
    ]
}

#[test]
fn one_second() {
    assert_eq!(four_ways(1), ["now", "now", "1s", "1 second"]);
}

#[test]
fn thirty_seconds() {
    assert_eq!(four_ways(30), ["30s", "30 seconds", "30s", "30 seconds"]);
}

#[test]
fn one_hour() {
    assert_eq!(four_ways(3600), ["1h", "1 hour", "1h", "1 hour"]);
}

#[test]
fn thirty_hours() {
    assert_eq!(four_ways(108000), ["1d", "1 day", "1d 6h", "1 day and 6 hours"]);
}

#[test]
fn one_week() {
    assert_eq!(four_ways(604800), ["1w", "1 week", "1w", "1 week"]);
}

#[test]
fn one_of_every_unit() {
    assert_eq!(
        four_ways(34_822_861),
        [
            "1y",
            "1 year",
            "1y 1mo 1w 1d 1h 1m 1s",
            "1 year, 1 month, 1 week, 1 day, 1 hour, 1 minute and 1 second"
        ]
    );
}

#[test]
fn one_second_short_of_a_year() {
    assert_eq!(
        four_ways(31_535_999),
        [
            "12mo",
            "12 months",
            "12mo 4d 23h 59m 59s",
            "12 months, 4 days, 23 hours, 59 minutes and 59 seconds"
        ]
    );
}

#[test]
fn a_gap_between_units() {
    assert_eq!(four_ways(63_072_005), ["2y", "2 years", "2y 5s", "2 years and 5 seconds"]);
}

#[test]
fn a_billion_seconds() {
    assert_eq!(
        four_ways(1_000_000_000),
        [
            "31y",
            "31 years",
            "31y 8mo 2w 5d 1h 46m 40s",
            "31 years, 8 months, 2 weeks, 5 days, 1 hour, 46 minutes and 40 seconds"
        ]
    );
}

#[test]
fn the_longest_duration() {
    assert_eq!(
        four_ways(u64::MAX),
        [
            "584942417355y",
            "584942417355 years",
            "584942417355y 3w 5d 7h 15s",
            "584942417355 years, 3 weeks, 5 days, 7 hours and 15 seconds"
        ]
    );
}

#[test]
fn rough_turns_to_seconds_at_five() {
    assert_eq!(humanize(4, AccuracyMode::Rough, VerbosityMode::Short, ' '), "now");
    assert_eq!(humanize(4, AccuracyMode::Rough, VerbosityMode::Long, ' '), "now");
    assert_eq!(humanize(5, AccuracyMode::Rough, VerbosityMode::Short, ' '), "5s");
    assert_eq!(humanize(5, AccuracyMode::Rough, VerbosityMode::Long, ' '), "5 seconds");
}

#[test]
fn rough_cuts_off_and_never_rounds_up() {
    assert_eq!(humanize(59, AccuracyMode::Rough, VerbosityMode::Short, ' '), "59s");
    assert_eq!(humanize(3599, AccuracyMode::Rough, VerbosityMode::Short, ' '), "59m");
    assert_eq!(humanize(86_399, AccuracyMode::Rough, VerbosityMode::Short, ' '), "23h");
    assert_eq!(humanize(604_799, AccuracyMode::Rough, VerbosityMode::Short, ' '), "6d");
    assert_eq!(humanize(2_591_999, AccuracyMode::Rough, VerbosityMode::Short, ' '), "4w");
    assert_eq!(humanize(40 * 3600, AccuracyMode::Rough, VerbosityMode::Long, ' '), "1 day");
}

#[test]
fn precise_keeps_what_rough_drops() {
    assert_eq!(humanize(3599, AccuracyMode::Precise, VerbosityMode::Short, ' '), "59m 59s");
    assert_eq!(humanize(86_399, AccuracyMode::Precise, VerbosityMode::Short, ' '), "23h 59m 59s");
    assert_eq!(
        humanize(604_799, AccuracyMode::Precise, VerbosityMode::Long, ' '),
        "6 days, 23 hours, 59 minutes and 59 seconds"
    );
    assert_eq!(
        humanize(2_591_999, AccuracyMode::Precise, VerbosityMode::Short, ' '),
        "4w 1d 23h 59m 59s"
    );
}

#[test]
fn the_separator_is_for_compact_text_only() {
    assert_eq!(humanize(108000, AccuracyMode::Precise, VerbosityMode::Short, '-'), "1d-6h");
    assert_eq!(humanize(108000, AccuracyMode::Precise, VerbosityMode::Short, '_'), "1d_6h");
    assert_eq!(
        humanize(108000, AccuracyMode::Precise, VerbosityMode::Long, '-'),
        "1 day and 6 hours"
    );
    assert_eq!(humanize(3600, AccuracyMode::Precise, VerbosityMode::Short, '-'), "1h");
    assert_eq!(humanize(0, AccuracyMode::Precise, VerbosityMode::Short, '-'), "now");
}
