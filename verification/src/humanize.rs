//! From an elapsed duration to its text in one step.
use crate::compact::{is_bare, lemma_separator_substitution, lemma_short_text_is_bare};
use crate::decomposition::{
    decompose, parts_of, precise_parts_from, rough_parts, spec_largest_unit_within, AccuracyMode,
    Part, ROUGH_MINIMUM,
};
use crate::reading::{
    lemma_long_part_tells_part, lemma_short_part_tells_part, lemma_single_part_text,
};
use crate::render::{now_text, render, rendered_text, VerbosityMode};
use crate::neutral::is_tenseless;
use crate::text::with_char_replaced;
use vstd::arithmetic::div_mod::lemma_div_is_ordered;
use vstd::prelude::*;

verus! {

/// The text for `elapsed` seconds: the parts at the given accuracy, in
/// the given wording.
pub open spec fn humanized(
    elapsed: u64,
    accuracy: AccuracyMode,
    verbosity: VerbosityMode,
    separator: char,
) -> Seq<char> {
    rendered_text(parts_of(elapsed, accuracy), verbosity, separator)
}

/// Renders `elapsed` seconds as relative-time text.
///
/// The text names a magnitude only, never a direction. A duration of
/// zero seconds is "now" whatever the other arguments are, and the
/// separator stands between the tokens of compact text only.
pub fn humanize(
    elapsed: u64,
    accuracy: AccuracyMode,
    verbosity: VerbosityMode,
    separator: char,
) -> (text: String)
    ensures
        text@ == humanized(elapsed, accuracy, verbosity, separator),
        elapsed == 0 ==> text@ == now_text(),
        verbosity == VerbosityMode::Short && separator != ',' ==> is_bare(text@),
        is_tenseless(text@),
{
    let split = decompose(elapsed, accuracy);
    proof {
        lemma_zero_is_now(accuracy, verbosity, separator);
    }
    render(&split, verbosity, separator)
}

/// No time at all is "now", at every accuracy, in either wording and with
/// any separator.
pub proof fn lemma_zero_is_now(accuracy: AccuracyMode, verbosity: VerbosityMode, separator: char)
    ensures
        humanized(0, accuracy, verbosity, separator) == now_text(),
{
    reveal_with_fuel(precise_parts_from, 8);
    assert(parts_of(0, accuracy) == Seq::<Part>::empty());
}

/// At rough accuracy two durations read the same exactly when they keep
/// the same part: the same unit with the same cut-off count, or none.
pub proof fn lemma_rough_text_tells_parts(
    first: u64,
    second: u64,
    verbosity: VerbosityMode,
    separator: char,
)
    ensures
        humanized(first, AccuracyMode::Rough, verbosity, separator) == humanized(
            second,
            AccuracyMode::Rough,
            verbosity,
            separator,
        ) <==> rough_parts(first) == rough_parts(second),
{
    let a = rough_parts(first);
    let b = rough_parts(second);
    if a.len() == 1 {
        assert(a == seq![a[0]]);
        lemma_single_part_text(a[0], verbosity, separator);
    }
    if b.len() == 1 {
        assert(b == seq![b[0]]);
        lemma_single_part_text(b[0], verbosity, separator);
    }
    if a.len() == 1 && b.len() == 1 && rendered_text(a, verbosity, separator) == rendered_text(
        b,
        verbosity,
        separator,
    ) {
        match verbosity {
            VerbosityMode::Long => lemma_long_part_tells_part(a[0], b[0]),
            VerbosityMode::Short => lemma_short_part_tells_part(a[0], b[0]),
        }
    }
}

/// Within one bucket of rough accuracy, that is among durations of at
/// least `ROUGH_MINIMUM` seconds whose largest fitting unit is the same,
/// the count never falls as the duration grows, and two durations read
/// the same exactly when their cut-off counts are equal.
pub proof fn lemma_rough_bucket(
    first: u64,
    second: u64,
    verbosity: VerbosityMode,
    separator: char,
)
    requires
        ROUGH_MINIMUM <= first <= second,
        spec_largest_unit_within(first) == spec_largest_unit_within(second),
    ensures
        first / spec_largest_unit_within(first).seconds() <= second / spec_largest_unit_within(
            first,
        ).seconds(),
        humanized(first, AccuracyMode::Rough, verbosity, separator) == humanized(
            second,
            AccuracyMode::Rough,
            verbosity,
            separator,
        ) <==> first / spec_largest_unit_within(first).seconds() == second
            / spec_largest_unit_within(first).seconds(),
{
    let unit = spec_largest_unit_within(first);
    lemma_div_is_ordered(first as int, second as int, unit.seconds() as int);
    lemma_rough_text_tells_parts(first, second, verbosity, separator);
    assert(rough_parts(first)[0].count == first / unit.seconds());
    assert(rough_parts(second)[0].count == second / unit.seconds());
}

/// Compact output holds no conjunction, no comma and no plural word of
/// any unit, as long as the separator is not itself a comma.
pub proof fn lemma_short_output_is_bare(elapsed: u64, accuracy: AccuracyMode, separator: char)
    requires
        separator != ',',
    ensures
        is_bare(humanized(elapsed, accuracy, VerbosityMode::Short, separator)),
{
    lemma_short_text_is_bare(parts_of(elapsed, accuracy), separator);
}

/// Compact output with any separator is the compact output with a space
/// for separator, each space exchanged for that separator.
pub proof fn lemma_output_separator(elapsed: u64, accuracy: AccuracyMode, separator: char)
    ensures
        humanized(elapsed, accuracy, VerbosityMode::Short, separator) == with_char_replaced(
            humanized(elapsed, accuracy, VerbosityMode::Short, ' '),
            ' ',
            separator,
        ),
{
    lemma_separator_substitution(parts_of(elapsed, accuracy), separator);
}

} // verus!
