//! The calendar-like units a duration is measured in.
use vstd::prelude::*;

verus! {

/// Seconds in a minute.
pub const MINUTE: u64 = 60;

/// Seconds in an hour.
pub const HOUR: u64 = 3_600;

/// Seconds in a day of 24 hours.
pub const DAY: u64 = 86_400;

/// Seconds in a week of 7 days.
pub const WEEK: u64 = 604_800;

/// Seconds in a month, taken as 30 days.
pub const MONTH: u64 = 2_592_000;

/// Seconds in a year, taken as 365 days.
pub const YEAR: u64 = 31_536_000;

/// A unit of elapsed time with a fixed approximate length.
///
/// The variants are listed from the largest to the smallest.
#[derive(Clone, Copy, Debug, PartialEq, Eq, Structural)]
pub enum Unit {
    Year,
    Month,
    Week,
    Day,
    Hour,
    Minute,
    Second,
}

impl Unit {
    /// The length of the unit in seconds.
    pub open spec fn spec_seconds(self) -> u64 {
        match self {
            Unit::Year => YEAR,
            Unit::Month => MONTH,
            Unit::Week => WEEK,
            Unit::Day => DAY,
            Unit::Hour => HOUR,
            Unit::Minute => MINUTE,
            Unit::Second => 1,
        }
    }

    /// The position of the unit in the order of magnitude: 0 for the second,
    /// 6 for the year.
    pub open spec fn rank(self) -> nat {
        match self {
            Unit::Year => 6,
            Unit::Month => 5,
            Unit::Week => 4,
            Unit::Day => 3,
            Unit::Hour => 2,
            Unit::Minute => 1,
            Unit::Second => 0,
        }
    }

    /// The next smaller unit, if there is one.
    pub open spec fn spec_smaller(self) -> Option<Unit> {
        match self {
            Unit::Year => Some(Unit::Month),
            Unit::Month => Some(Unit::Week),
            Unit::Week => Some(Unit::Day),
            Unit::Day => Some(Unit::Hour),
            Unit::Hour => Some(Unit::Minute),
            Unit::Minute => Some(Unit::Second),
            Unit::Second => None,
        }
    }

    /// The English word for one of the unit.
    pub open spec fn name_text(self) -> Seq<char> {
        match self {
            Unit::Year => "year"@,
            Unit::Month => "month"@,
            Unit::Week => "week"@,
            Unit::Day => "day"@,
            Unit::Hour => "hour"@,
            Unit::Minute => "minute"@,
            Unit::Second => "second"@,
        }
    }

    /// The English word for several of the unit.
    pub open spec fn plural_text(self) -> Seq<char> {
        match self {
            Unit::Year => "years"@,
            Unit::Month => "months"@,
            Unit::Week => "weeks"@,
            Unit::Day => "days"@,
            Unit::Hour => "hours"@,
            Unit::Minute => "minutes"@,
            Unit::Second => "seconds"@,
        }
    }

    /// The token that stands for the unit in compact text.
    pub open spec fn abbreviation_text(self) -> Seq<char> {
        match self {
            Unit::Year => "y"@,
            Unit::Month => "mo"@,
            Unit::Week => "w"@,
            Unit::Day => "d"@,
            Unit::Hour => "h"@,
            Unit::Minute => "m"@,
            Unit::Second => "s"@,
        }
    }

    /// The length of the unit in seconds.
    #[verifier::when_used_as_spec(spec_seconds)]
    pub fn seconds(self) -> (length: u64)
        ensures
            length == self.spec_seconds(),
            length >= 1,
    {
        match self {
            Unit::Year => YEAR,
            Unit::Month => MONTH,
            Unit::Week => WEEK,
            Unit::Day => DAY,
            Unit::Hour => HOUR,
            Unit::Minute => MINUTE,
            Unit::Second => 1,
        }
    }

    /// The next smaller unit, or `None` for the second.
    #[verifier::when_used_as_spec(spec_smaller)]
    pub fn smaller(self) -> (next: Option<Unit>)
        ensures
            next == self.spec_smaller(),
    {
        match self {
            Unit::Year => Some(Unit::Month),
            Unit::Month => Some(Unit::Week),
            Unit::Week => Some(Unit::Day),
            Unit::Day => Some(Unit::Hour),
            Unit::Hour => Some(Unit::Minute),
            Unit::Minute => Some(Unit::Second),
            Unit::Second => None,
        }
    }

    /// The English word for one of the unit, such as `hour`.
    pub fn name(self) -> (word: &'static str)
        ensures
            word@ == self.name_text(),
    {
        match self {
            Unit::Year => "year",
            Unit::Month => "month",
            Unit::Week => "week",
            Unit::Day => "day",
            Unit::Hour => "hour",
            Unit::Minute => "minute",
            Unit::Second => "second",
        }
    }

    /// The English word for several of the unit, such as `hours`.
    pub fn plural(self) -> (word: &'static str)
        ensures
            word@ == self.plural_text(),
    {
        match self {
            Unit::Year => "years",
            Unit::Month => "months",
            Unit::Week => "weeks",
            Unit::Day => "days",
            Unit::Hour => "hours",
            Unit::Minute => "minutes",
            Unit::Second => "seconds",
        }
    }

    /// The token that stands for the unit in compact text, such as `h`.
    pub fn abbreviation(self) -> (token: &'static str)
        ensures
            token@ == self.abbreviation_text(),
    {
        match self {
            Unit::Year => "y",
            Unit::Month => "mo",
            Unit::Week => "w",
            Unit::Day => "d",
            Unit::Hour => "h",
            Unit::Minute => "m",
            Unit::Second => "s",
        }
    }
}

/// A larger unit is strictly longer, and stepping to the next smaller unit
/// lowers the rank by one.
pub proof fn lemma_units_ordered(a: Unit, b: Unit)
    ensures
        a.rank() > b.rank() <==> a.seconds() > b.seconds(),
        a.rank() == b.rank() <==> a == b,
        a.smaller() matches Some(next) ==> next.rank() + 1 == a.rank(),
        a.smaller() is None <==> a == Unit::Second,
{
}

/// Whether `c` is one of the letters the abbreviations are written with.
pub open spec fn is_abbreviation_letter(c: char) -> bool {
    c == 'y' || c == 'm' || c == 'o' || c == 'w' || c == 'd' || c == 'h' || c == 's'
}

/// An abbreviation is one or two of the abbreviation letters.
pub proof fn lemma_abbreviation_letters(unit: Unit)
    ensures
        1 <= unit.abbreviation_text().len() <= 2,
        forall|i: int|
            0 <= i < unit.abbreviation_text().len() ==> is_abbreviation_letter(
                #[trigger] unit.abbreviation_text()[i],
            ),
{
    reveal_strlit("y");
    reveal_strlit("mo");
    reveal_strlit("w");
    reveal_strlit("d");
    reveal_strlit("h");
    reveal_strlit("m");
    reveal_strlit("s");
}

/// Two units with the same abbreviation are the same unit.
pub proof fn lemma_abbreviation_tells_unit(a: Unit, b: Unit)
    requires
        a.abbreviation_text() == b.abbreviation_text(),
    ensures
        a == b,
{
    reveal_strlit("y");
    reveal_strlit("mo");
    reveal_strlit("w");
    reveal_strlit("d");
    reveal_strlit("h");
    reveal_strlit("m");
    reveal_strlit("s");
    assert("y"@.len() == 1 && "y"@[0] == 'y');
    assert("mo"@.len() == 2 && "mo"@[0] == 'm');
    assert("w"@.len() == 1 && "w"@[0] == 'w');
    assert("d"@.len() == 1 && "d"@[0] == 'd');
    assert("h"@.len() == 1 && "h"@[0] == 'h');
    assert("m"@.len() == 1 && "m"@[0] == 'm');
    assert("s"@.len() == 1 && "s"@[0] == 's');
}

/// Two units with the same name, or with the same plural, are the same
/// unit, and no name or plural starts with a digit or is empty.
pub proof fn lemma_name_tells_unit(a: Unit, b: Unit)
    ensures
        a.name_text() == b.name_text() ==> a == b,
        a.plural_text() == b.plural_text() ==> a == b,
        a.name_text().len() >= 3,
        a.plural_text().len() == a.name_text().len() + 1,
{
    reveal_strlit("year");
    reveal_strlit("month");
    reveal_strlit("week");
    reveal_strlit("day");
    reveal_strlit("hour");
    reveal_strlit("minute");
    reveal_strlit("second");
    reveal_strlit("years");
    reveal_strlit("months");
    reveal_strlit("weeks");
    reveal_strlit("days");
    reveal_strlit("hours");
    reveal_strlit("minutes");
    reveal_strlit("seconds");
    assert("year"@.len() == 4 && "year"@[0] == 'y');
    assert("month"@.len() == 5 && "month"@[0] == 'm');
    assert("week"@.len() == 4 && "week"@[0] == 'w');
    assert("day"@.len() == 3 && "day"@[0] == 'd');
    assert("hour"@.len() == 4 && "hour"@[0] == 'h');
    assert("minute"@.len() == 6 && "minute"@[0] == 'm');
    assert("second"@.len() == 6 && "second"@[0] == 's');
    assert("years"@.len() == 5 && "years"@[0] == 'y');
    assert("months"@.len() == 6 && "months"@[0] == 'm');
    assert("weeks"@.len() == 5 && "weeks"@[0] == 'w');
    assert("days"@.len() == 4 && "days"@[0] == 'd');
    assert("hours"@.len() == 5 && "hours"@[0] == 'h');
    assert("minutes"@.len() == 7 && "minutes"@[0] == 'm');
    assert("seconds"@.len() == 7 && "seconds"@[0] == 's');
}

/// Whether `c` is one of the letters the names of the units are written
/// with.
pub open spec fn is_name_letter(c: char) -> bool {
    c == 'a' || c == 'c' || c == 'd' || c == 'e' || c == 'h' || c == 'i' || c == 'k' || c == 'm'
        || c == 'n' || c == 'o' || c == 'r' || c == 's' || c == 't' || c == 'u' || c == 'w' || c
        == 'y'
}

/// Names and plurals are written with name letters only.
pub proof fn lemma_name_letters(unit: Unit)
    ensures
        forall|i: int|
            0 <= i < unit.name_text().len() ==> is_name_letter(#[trigger] unit.name_text()[i]),
        forall|i: int|
            0 <= i < unit.plural_text().len() ==> is_name_letter(
                #[trigger] unit.plural_text()[i],
            ),
{
    reveal_strlit("year");
    reveal_strlit("month");
    reveal_strlit("week");
    reveal_strlit("day");
    reveal_strlit("hour");
    reveal_strlit("minute");
    reveal_strlit("second");
    reveal_strlit("years");
    reveal_strlit("months");
    reveal_strlit("weeks");
    reveal_strlit("days");
    reveal_strlit("hours");
    reveal_strlit("minutes");
    reveal_strlit("seconds");
}

} // verus!
