use humanize_datetime::decimal::{append_decimal, digit};
use humanize_datetime::decomposition::{decompose, AccuracyMode};
use humanize_datetime::render::{
    apply_long_format, apply_short_format, render, VerbosityMode, DEFAULT_SEPARATOR,
};

#[test]
fn a_week_and_a_day_in_compact_text() {
    let split = decompose(604_800 + 86_400, AccuracyMode::Precise);
    assert_eq!(apply_short_format(&split, ' '), "1w 1d");
    assert_eq!(apply_short_format(&split, '+'), "1w+1d");
}

#[test]
fn a_week_and_a_day_in_words() {
    let split = decompose(604_800 + 86_400, AccuracyMode::Precise);
    assert_eq!(apply_long_format(&split), "1 week and 1 day");
}

#[test]
fn words_are_plural_unless_the_count_is_one() {
    assert_eq!(apply_long_format(&decompose(1, AccuracyMode::Precise)), "1 second");
    assert_eq!(apply_long_format(&decompose(2, AccuracyMode::Precise)), "2 seconds");
    assert_eq!(apply_long_format(&decompose(11 * 3600, AccuracyMode::Precise)), "11 hours");
    assert_eq!(apply_long_format(&decompose(21 * 3600, AccuracyMode::Precise)), "21 hours");
    assert_eq!(apply_long_format(&decompose(101 * 31_536_000, AccuracyMode::Precise)), "101 years");
}

#[test]
fn counts_that_end_in_one_keep_their_abbreviation() {
    assert_eq!(apply_short_format(&decompose(11 * 3600, AccuracyMode::Precise), ' '), "11h");
    assert_eq!(apply_short_format(&decompose(21 * 3600, AccuracyMode::Precise), ' '), "21h");
    assert_eq!(apply_short_format(&decompose(11 * 86_400, AccuracyMode::Rough), ' '), "1w");
    assert_eq!(apply_short_format(&decompose(11 * 86_400, AccuracyMode::Precise), ' '), "1w 4d");
}

#[test]
fn commas_come_before_all_but_the_last_two_parts() {
    assert_eq!(
        apply_long_format(&decompose(3661, AccuracyMode::Precise)),
        "1 hour, 1 minute and 1 second"
    );
    assert_eq!(
        apply_long_format(&decompose(90_061, AccuracyMode::Precise)),
        "1 day, 1 hour, 1 minute and 1 second"
    );
    assert_eq!(apply_long_format(&decompose(3660, AccuracyMode::Precise)), "1 hour and 1 minute");
    assert_eq!(apply_long_format(&decompose(3600, AccuracyMode::Precise)), "1 hour");
}

#[test]
fn now_reads_the_same_in_every_wording() {
    let split = decompose(0, AccuracyMode::Precise);
    assert_eq!(apply_long_format(&split), "now");
    assert_eq!(apply_short_format(&split, ' '), "now");
    assert_eq!(apply_short_format(&split, '-'), "now");
    assert_eq!(render(&split, VerbosityMode::Long, '-'), "now");
    assert_eq!(render(&split, VerbosityMode::Short, '-'), "now");
}

#[test]
fn the_default_separator_is_a_space() {
    assert_eq!(DEFAULT_SEPARATOR, ' ');
    let split = decompose(90_061, AccuracyMode::Precise);
    assert_eq!(apply_short_format(&split, DEFAULT_SEPARATOR), "1d 1h 1m 1s");
}

#[test]
fn render_picks_the_wording() {
    let split = decompose(90_061, AccuracyMode::Precise);
    assert_eq!(render(&split, VerbosityMode::Short, ' '), apply_short_format(&split, ' '));
    assert_eq!(render(&split, VerbosityMode::Short, '.'), "1d.1h.1m.1s");
    assert_eq!(render(&split, VerbosityMode::Long, '.'), apply_long_format(&split));
}

#[test]
fn decimal_notation_matches_the_usual_one() {
    let mut values = vec![0u64, 1, 9, 10, 11, 99, 100, 101, 999, 1000, 12_345, u64::MAX];
    let mut power: u64 = 1;
    for _ in 0..19 {
        power *= 10;
        values.push(power - 1);
        values.push(power);
        values.push(power + 1);
    }
    for value in values {
        let mut out = String::new();
        append_decimal(&mut out, value);
        assert_eq!(out, value.to_string());
    }
}

#[test]
fn decimal_notation_is_appended_to_what_is_there() {
    let mut out = String::from("x=");
    append_decimal(&mut out, 0);
    append_decimal(&mut out, 42);
    assert_eq!(out, "x=042");
}

#[test]
fn digits() {
    let written: String = (0..10).map(digit).collect();
    assert_eq!(written, "0123456789");
}
