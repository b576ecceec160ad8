use humanize_datetime::decomposition::AccuracyMode;
use humanize_datetime::humanize::humanize;
use humanize_datetime::render::{separator_from, VerbosityMode, DEFAULT_SEPARATOR};

#[test]
fn accuracy_is_rough_unless_precision_is_wished_for() {
    assert_eq!(AccuracyMode::from_precise(false), AccuracyMode::Rough);
    assert_eq!(AccuracyMode::from_precise(true), AccuracyMode::Precise);
}

#[test]
fn wording_is_short_unless_full_words_are_wished_for() {
    assert_eq!(VerbosityMode::from_long(false), VerbosityMode::Short);
    assert_eq!(VerbosityMode::from_long(true), VerbosityMode::Long);
}

#[test]
fn the_separator_is_the_first_character() {
    assert_eq!(separator_from(" "), ' ');
    assert_eq!(separator_from("-"), '-');
    assert_eq!(separator_from(", "), ',');
    assert_eq!(separator_from("→ then"), '→');
}

#[test]
fn no_separator_means_the_default() {
    assert_eq!(separator_from(""), DEFAULT_SEPARATOR);
    assert_eq!(separator_from(""), ' ');
}

#[test]
fn flags_pick_one_of_four_texts() {
    let text = |long: bool, precise: bool| {
        humanize(
            108_000,
            AccuracyMode::from_precise(precise),
            VerbosityMode::from_long(long),
            separator_from(" "),
        )
    };
    assert_eq!(text(false, false), "1d");
    assert_eq!(text(true, false), "1 day");
    assert_eq!(text(false, true), "1d 6h");
    assert_eq!(text(true, true), "1 day and 6 hours");
}
