//! Splitting an elapsed duration into counted units.
use crate::greedy::{lemma_at_most_seven_parts, lemma_parts_within, lemma_rough_parts_first};
use crate::unit::{Unit, DAY, HOUR, MINUTE, MONTH, WEEK, YEAR};
use vstd::prelude::*;

verus! {

/// How much of a duration is kept.
#[derive(Clone, Copy, Debug, PartialEq, Eq, Structural)]
pub enum AccuracyMode {
    /// Only the largest unit that fits, its count cut off, never rounded.
    Rough,
    /// Every unit with a count above zero, down to seconds.
    Precise,
}

impl AccuracyMode {
    /// The accuracy that a yes-or-no wish for precision stands for.
    pub open spec fn spec_from_precise(precise: bool) -> AccuracyMode {
        if precise {
            AccuracyMode::Precise
        } else {
            AccuracyMode::Rough
        }
    }

    /// The accuracy that a yes-or-no wish for precision stands for: precise
    /// where it is wished for, rough where it is not.
    #[verifier::when_used_as_spec(spec_from_precise)]
    pub fn from_precise(precise: bool) -> (accuracy: AccuracyMode)
        ensures
            accuracy == AccuracyMode::spec_from_precise(precise),
    {
        if precise {
            AccuracyMode::Precise
        } else {
            AccuracyMode::Rough
        }
    }
}

/// The shortest duration, in seconds, that rough accuracy still gives a
/// magnitude; anything shorter is "now".
pub const ROUGH_MINIMUM: u64 = 5;

/// A count of one unit, such as "6 hours".
#[derive(Clone, Copy, Debug, PartialEq, Eq, Structural)]
pub struct Part {
    pub count: u64,
    pub unit: Unit,
}

impl Part {
    /// The seconds this part stands for.
    pub open spec fn span(self) -> nat {
        (self.count * self.unit.seconds()) as nat
    }
}

/// The seconds that all the parts stand for together.
pub open spec fn total_seconds(parts: Seq<Part>) -> nat
    decreases parts.len(),
{
    if parts.len() == 0 {
        0
    } else {
        parts[0].span() + total_seconds(parts.drop_first())
    }
}

/// The seconds that the parts in units smaller than `unit` stand for.
pub open spec fn seconds_below(parts: Seq<Part>, unit: Unit) -> nat
    decreases parts.len(),
{
    if parts.len() == 0 {
        0
    } else if parts[0].unit.rank() < unit.rank() {
        parts[0].span() + seconds_below(parts.drop_first(), unit)
    } else {
        seconds_below(parts.drop_first(), unit)
    }
}

/// Every count is positive and the units come strictly largest first.
pub open spec fn is_descending(parts: Seq<Part>) -> bool {
    &&& forall|i: int| 0 <= i < parts.len() ==> (#[trigger] parts[i]).count > 0
    &&& forall|i: int, j: int|
        0 <= i < j < parts.len() ==> (#[trigger] parts[i]).unit.rank() > (
        #[trigger] parts[j]).unit.rank()
}

/// The parts are what taking the largest unit first leaves: positive counts,
/// units strictly largest first, and whatever is counted in units smaller
/// than some unit falls short of one such unit.
pub open spec fn is_greedy(parts: Seq<Part>) -> bool {
    &&& is_descending(parts)
    &&& forall|unit: Unit| #[trigger] seconds_below(parts, unit) < unit.seconds()
}

/// The greedy split of `remaining` seconds over `unit` and the units below
/// it: as many of `unit` as fit, then the same for what is left. A unit
/// that does not fit once is left out.
pub open spec fn precise_parts_from(remaining: u64, unit: Unit) -> Seq<Part>
    decreases unit.rank(),
{
    let head = if remaining >= unit.seconds() {
        seq![Part { count: remaining / unit.seconds(), unit }]
    } else {
        Seq::empty()
    };
    match unit.smaller() {
        Some(next) => head + precise_parts_from(remaining % unit.seconds(), next),
        None => head,
    }
}

/// The parts of `elapsed` seconds at precise accuracy.
pub open spec fn precise_parts(elapsed: u64) -> Seq<Part> {
    precise_parts_from(elapsed, Unit::Year)
}

/// The largest unit that fits into `elapsed` seconds at least once; the
/// second where none does.
pub open spec fn spec_largest_unit_within(elapsed: u64) -> Unit {
    if elapsed >= YEAR {
        Unit::Year
    } else if elapsed >= MONTH {
        Unit::Month
    } else if elapsed >= WEEK {
        Unit::Week
    } else if elapsed >= DAY {
        Unit::Day
    } else if elapsed >= HOUR {
        Unit::Hour
    } else if elapsed >= MINUTE {
        Unit::Minute
    } else {
        Unit::Second
    }
}

/// The parts of `elapsed` seconds at rough accuracy: none below
/// `ROUGH_MINIMUM`, else the largest unit that fits with its count cut off.
pub open spec fn rough_parts(elapsed: u64) -> Seq<Part> {
    if elapsed < ROUGH_MINIMUM {
        Seq::empty()
    } else {
        let unit = spec_largest_unit_within(elapsed);
        seq![Part { count: elapsed / unit.seconds(), unit }]
    }
}

/// The parts of `elapsed` seconds at the given accuracy.
pub open spec fn parts_of(elapsed: u64, accuracy: AccuracyMode) -> Seq<Part> {
    match accuracy {
        AccuracyMode::Rough => rough_parts(elapsed),
        AccuracyMode::Precise => precise_parts(elapsed),
    }
}

/// An elapsed duration split into counted units, largest unit first.
///
/// The empty decomposition is the sentinel for "now".
#[derive(Clone, Debug, PartialEq, Eq)]
pub struct Decomposition {
    parts: Vec<Part>,
}

impl View for Decomposition {
    type V = Seq<Part>;

    closed spec fn view(&self) -> Seq<Part> {
        self.parts@
    }
}

impl Decomposition {
    /// Whether the parts are a greedy split.
    pub open spec fn wf(&self) -> bool {
        is_greedy(self@)
    }

    /// The parts, largest unit first.
    pub fn parts(&self) -> (parts: &Vec<Part>)
        ensures
            parts@ == self@,
    {
        &self.parts
    }

    /// The number of parts.
    pub fn len(&self) -> (n: usize)
        ensures
            n == self@.len(),
    {
        self.parts.len()
    }

    /// Whether this is the sentinel for "now".
    pub fn is_now(&self) -> (now: bool)
        ensures
            now == (self@.len() == 0),
    {
        self.parts.len() == 0
    }
}

/// The largest unit that fits into `elapsed` seconds at least once; the
/// second where none does.
#[verifier::when_used_as_spec(spec_largest_unit_within)]
pub fn largest_unit_within(elapsed: u64) -> (unit: Unit)
    ensures
        unit == spec_largest_unit_within(elapsed),
{
    if elapsed >= YEAR {
        Unit::Year
    } else if elapsed >= MONTH {
        Unit::Month
    } else if elapsed >= WEEK {
        Unit::Week
    } else if elapsed >= DAY {
        Unit::Day
    } else if elapsed >= HOUR {
        Unit::Hour
    } else if elapsed >= MINUTE {
        Unit::Minute
    } else {
        Unit::Second
    }
}

/// Splits `elapsed` seconds into counted units at the given accuracy.
///
/// The split is greedy. At precise accuracy it adds up to `elapsed`
/// exactly, which leaves one possible result. At rough accuracy it is at
/// most one part, and what it drops is less than one of that part's unit.
pub fn decompose(elapsed: u64, accuracy: AccuracyMode) -> (split: Decomposition)
    ensures
        split@ == parts_of(elapsed, accuracy),
        split.wf(),
        split@.len() <= 7,
        total_seconds(split@) <= elapsed,
        accuracy == AccuracyMode::Precise ==> total_seconds(split@) == elapsed,
        accuracy == AccuracyMode::Rough ==> split@.len() <= 1,
        accuracy == AccuracyMode::Rough && elapsed >= ROUGH_MINIMUM ==> split@.len() == 1
            && elapsed - total_seconds(split@) < split@[0].unit.seconds(),
{
    proof {
        lemma_parts_within(elapsed, accuracy);
        lemma_at_most_seven_parts(parts_of(elapsed, accuracy));
        if accuracy == AccuracyMode::Rough && elapsed >= ROUGH_MINIMUM {
            lemma_rough_parts_first(elapsed);
        }
    }
    let mut parts: Vec<Part> = Vec::new();
    match accuracy {
        AccuracyMode::Rough => {
            if elapsed >= ROUGH_MINIMUM {
                let unit = largest_unit_within(elapsed);
                parts.push(Part { count: elapsed / unit.seconds(), unit });
            }
        },
        AccuracyMode::Precise => {
            let mut remaining: u64 = elapsed;
            let mut unit = Unit::Year;
            loop
                invariant_except_break
                    precise_parts(elapsed) == parts@ + precise_parts_from(remaining, unit),
                ensures
                    parts@ == precise_parts(elapsed),
                decreases unit.rank(),
            {
                let length: u64 = unit.seconds();
                if remaining >= length {
                    parts.push(Part { count: remaining / length, unit });
                }
                remaining = remaining % length;
                match unit.smaller() {
                    Some(next) => {
                        unit = next;
                    },
                    None => {
                        break ;
                    },
                }
            }
        },
    }
    Decomposition { parts }
}

} // verus!
