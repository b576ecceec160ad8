//! What holds of the greedy split: it loses nothing at precise accuracy,
//! it is the only way to write a duration largest unit first, and rough
//! accuracy is its first part.
use crate::decomposition::{
    is_descending, is_greedy, parts_of, precise_parts, precise_parts_from, rough_parts,
    seconds_below, spec_largest_unit_within, total_seconds, AccuracyMode, Part, ROUGH_MINIMUM,
};
use crate::unit::{lemma_units_ordered, Unit};
use vstd::arithmetic::div_mod::{
    lemma_fundamental_div_mod, lemma_fundamental_div_mod_converse_div,
    lemma_fundamental_div_mod_converse_mod, lemma_small_mod,
};
use vstd::prelude::*;

verus! {

/// Putting one part in front adds its span to the total, and to the seconds
/// below every unit larger than its own.
proof fn lemma_cons(head: Part, tail: Seq<Part>, unit: Unit)
    ensures
        total_seconds(seq![head] + tail) == head.span() + total_seconds(tail),
        seconds_below(seq![head] + tail, unit) == if head.unit.rank() < unit.rank() {
            head.span() + seconds_below(tail, unit)
        } else {
            seconds_below(tail, unit)
        },
{
    let parts = seq![head] + tail;
    assert(parts[0] == head);
    assert(parts.drop_first() == tail);
}

/// Where every part is in a unit smaller than `unit`, the seconds below
/// `unit` are all the seconds there are.
proof fn lemma_all_below(parts: Seq<Part>, unit: Unit)
    requires
        forall|i: int| 0 <= i < parts.len() ==> (#[trigger] parts[i]).unit.rank() < unit.rank(),
    ensures
        seconds_below(parts, unit) == total_seconds(parts),
    decreases parts.len(),
{
    if parts.len() > 0 {
        let tail = parts.drop_first();
        assert forall|i: int| 0 <= i < tail.len() implies (#[trigger] tail[i]).unit.rank()
            < unit.rank() by {
            assert(tail[i] == parts[i + 1]);
        }
        lemma_all_below(tail, unit);
    }
}

/// The greedy split from `unit` down keeps every second, uses no unit
/// above `unit`, and leaves less than one of each unit to the units below
/// it.
proof fn lemma_precise_parts_from(remaining: u64, unit: Unit)
    ensures
        is_descending(precise_parts_from(remaining, unit)),
        forall|i: int|
            0 <= i < precise_parts_from(remaining, unit).len() ==> (
            #[trigger] precise_parts_from(remaining, unit)[i]).unit.rank() <= unit.rank(),
        total_seconds(precise_parts_from(remaining, unit)) == remaining,
        forall|above: Unit|
            above.rank() > unit.rank() ==> #[trigger] seconds_below(
                precise_parts_from(remaining, unit),
                above,
            ) == remaining,
        forall|within: Unit|
            within.rank() <= unit.rank() ==> #[trigger] seconds_below(
                precise_parts_from(remaining, unit),
                within,
            ) < within.seconds(),
    decreases unit.rank(),
{
    let parts = precise_parts_from(remaining, unit);
    let length = unit.seconds();
    let rest = remaining % length;
    let head = Part { count: remaining / length, unit };
    lemma_fundamental_div_mod(remaining as int, length as int);
    assert(head.span() + rest == remaining) by (nonlinear_arith)
        requires
            head.span() == head.count * length,
            remaining == length * head.count + rest,
    ;
    match unit.smaller() {
        Some(next) => {
            let tail = precise_parts_from(rest, next);
            lemma_precise_parts_from(rest, next);
            if remaining >= length {
                assert(parts == seq![head] + tail);
                assert(head.count > 0) by (nonlinear_arith)
                    requires
                        remaining == length * head.count + rest,
                        rest < length,
                        remaining >= length,
                        length > 0,
                ;
                assert forall|i: int| 0 <= i < parts.len() implies (#[trigger] parts[i]).count > 0
                    && parts[i].unit.rank() <= unit.rank() by {
                    if i > 0 {
                        assert(parts[i] == tail[i - 1]);
                    }
                }
                assert forall|i: int, j: int| 0 <= i < j < parts.len() implies (
                #[trigger] parts[i]).unit.rank() > (#[trigger] parts[j]).unit.rank() by {
                    assert(parts[j] == tail[j - 1]);
                    if i > 0 {
                        assert(parts[i] == tail[i - 1]);
                    }
                }
                assert forall|other: Unit|
                    (other.rank() > unit.rank() ==> #[trigger] seconds_below(parts, other)
                        == remaining) && (other.rank() <= unit.rank() ==> seconds_below(
                        parts,
                        other,
                    ) < other.seconds()) by {
                    lemma_cons(head, tail, other);
                }
                lemma_cons(head, tail, unit);
            } else {
                lemma_small_mod(remaining as nat, length as nat);
                assert(parts == tail);
            }
        },
        None => {
            if remaining >= length {
                assert(parts == seq![head] + Seq::<Part>::empty());
                assert forall|other: Unit|
                    (other.rank() > unit.rank() ==> #[trigger] seconds_below(parts, other)
                        == remaining) && (other.rank() <= unit.rank() ==> seconds_below(
                        parts,
                        other,
                    ) < other.seconds()) by {
                    lemma_cons(head, Seq::<Part>::empty(), other);
                }
                lemma_cons(head, Seq::<Part>::empty(), unit);
            }
        },
    }
}

/// In parts that come strictly largest unit first, the part at index
/// `at` is in a unit at least `at` steps below the year.
proof fn lemma_rank_falls(parts: Seq<Part>, at: int)
    requires
        is_descending(parts),
        0 <= at < parts.len(),
    ensures
        parts[at].unit.rank() + at <= 6,
    decreases at,
{
    if at > 0 {
        lemma_rank_falls(parts, at - 1);
        assert(parts[at - 1].unit.rank() > parts[at].unit.rank());
    }
}

/// With seven units and none used twice, there are at most seven parts.
pub proof fn lemma_at_most_seven_parts(parts: Seq<Part>)
    requires
        is_descending(parts),
    ensures
        parts.len() <= 7,
{
    if parts.len() > 0 {
        lemma_rank_falls(parts, parts.len() - 1);
    }
}

/// At precise accuracy the parts add up to the elapsed duration exactly,
/// and they are greedy.
pub proof fn lemma_precise_parts_exact(elapsed: u64)
    ensures
        total_seconds(precise_parts(elapsed)) == elapsed,
        is_greedy(precise_parts(elapsed)),
{
    lemma_precise_parts_from(elapsed, Unit::Year);
}

/// A greedy sequence of parts is the greedy split of its own total.
proof fn lemma_greedy_unique_from(parts: Seq<Part>, remaining: u64, unit: Unit)
    requires
        is_greedy(parts),
        forall|i: int| 0 <= i < parts.len() ==> (#[trigger] parts[i]).unit.rank() <= unit.rank(),
        total_seconds(parts) == remaining,
    ensures
        parts == precise_parts_from(remaining, unit),
    decreases unit.rank(),
{
    let length = unit.seconds();
    if parts.len() > 0 && parts[0].unit == unit {
        let head = parts[0];
        let tail = parts.drop_first();
        assert(parts == seq![head] + tail);
        assert forall|i: int| 0 <= i < tail.len() implies (#[trigger] tail[i]).count > 0
            && tail[i].unit.rank() < unit.rank() by {
            assert(tail[i] == parts[i + 1]);
        }
        assert forall|i: int, j: int| 0 <= i < j < tail.len() implies (
        #[trigger] tail[i]).unit.rank() > (#[trigger] tail[j]).unit.rank() by {
            assert(tail[i] == parts[i + 1]);
            assert(tail[j] == parts[j + 1]);
        }
        assert forall|other: Unit| #[trigger]
            seconds_below(tail, other) < other.seconds() by {
            lemma_cons(head, tail, other);
            assert(seconds_below(parts, other) < other.seconds());
        }
        lemma_cons(head, tail, unit);
        lemma_all_below(tail, unit);
        assert(seconds_below(parts, unit) < unit.seconds());
        let rest = total_seconds(tail);
        assert(remaining == head.count * length + rest) by (nonlinear_arith)
            requires
                remaining == head.span() + rest,
                head.span() == head.count * length,
        ;
        lemma_fundamental_div_mod_converse_div(
            remaining as int,
            length as int,
            head.count as int,
            rest as int,
        );
        lemma_fundamental_div_mod_converse_mod(
            remaining as int,
            length as int,
            head.count as int,
            rest as int,
        );
        assert(remaining >= length) by (nonlinear_arith)
            requires
                remaining == head.count * length + rest,
                head.count > 0,
                length > 0,
        ;
        match unit.smaller() {
            Some(next) => {
                lemma_greedy_unique_from(tail, (remaining % length) as u64, next);
            },
            None => {
                if tail.len() > 0 {
                    assert(tail[0].unit.rank() < unit.rank());
                }
                assert(tail == Seq::<Part>::empty());
            },
        }
    } else {
        assert forall|i: int| 0 <= i < parts.len() implies (#[trigger] parts[i]).unit.rank()
            < unit.rank() by {
            if i > 0 {
                assert(parts[0].unit.rank() > parts[i].unit.rank());
            } else {
                lemma_units_ordered(parts[0].unit, unit);
            }
        }
        lemma_all_below(parts, unit);
        assert(seconds_below(parts, unit) < unit.seconds());
        lemma_small_mod(remaining as nat, length as nat);
        match unit.smaller() {
            Some(next) => {
                lemma_greedy_unique_from(parts, remaining, next);
            },
            None => {
                if parts.len() > 0 {
                    assert(parts[0].unit.rank() < unit.rank());
                }
                assert(parts == Seq::<Part>::empty());
            },
        }
    }
}

/// There is one greedy way to write a duration: parts that are greedy and
/// add up to `elapsed` are the parts of `elapsed` at precise accuracy.
pub proof fn lemma_greedy_unique(parts: Seq<Part>, elapsed: u64)
    requires
        is_greedy(parts),
        total_seconds(parts) == elapsed,
    ensures
        parts == precise_parts(elapsed),
{
    assert forall|i: int| 0 <= i < parts.len() implies (#[trigger] parts[i]).unit.rank()
        <= Unit::Year.rank() by {}
    lemma_greedy_unique_from(parts, elapsed, Unit::Year);
}

/// Walking down from `unit` to the largest unit that fits, the greedy
/// split starts with that unit and its cut-off count.
proof fn lemma_precise_parts_first(elapsed: u64, unit: Unit)
    requires
        elapsed >= 1,
        unit.rank() >= spec_largest_unit_within(elapsed).rank(),
    ensures
        precise_parts_from(elapsed, unit).len() >= 1,
        precise_parts_from(elapsed, unit)[0] == (Part {
            count: elapsed / spec_largest_unit_within(elapsed).seconds(),
            unit: spec_largest_unit_within(elapsed),
        }),
    decreases unit.rank(),
{
    let largest = spec_largest_unit_within(elapsed);
    lemma_units_ordered(unit, largest);
    if unit != largest {
        lemma_small_mod(elapsed as nat, unit.seconds() as nat);
        lemma_precise_parts_first(elapsed, unit.smaller().unwrap());
    }
}

/// At rough accuracy a duration of at least `ROUGH_MINIMUM` seconds keeps
/// the first part of its precise split and nothing else: the largest unit
/// that fits, with the count cut off. What is dropped is less than one of
/// that unit.
pub proof fn lemma_rough_parts_first(elapsed: u64)
    requires
        elapsed >= ROUGH_MINIMUM,
    ensures
        rough_parts(elapsed) == precise_parts(elapsed).take(1),
        is_greedy(rough_parts(elapsed)),
        total_seconds(rough_parts(elapsed)) <= elapsed,
        elapsed - total_seconds(rough_parts(elapsed)) < spec_largest_unit_within(
            elapsed,
        ).seconds(),
{
    let unit = spec_largest_unit_within(elapsed);
    let part = Part { count: elapsed / unit.seconds(), unit };
    let parts = rough_parts(elapsed);
    lemma_precise_parts_first(elapsed, Unit::Year);
    assert(parts == precise_parts(elapsed).take(1));
    assert(parts == seq![part] + Seq::<Part>::empty());
    lemma_cons(part, Seq::<Part>::empty(), unit);
    lemma_fundamental_div_mod(elapsed as int, unit.seconds() as int);
    assert(part.span() + elapsed % unit.seconds() == elapsed) by (nonlinear_arith)
        requires
            part.span() == part.count * unit.seconds(),
            elapsed == unit.seconds() * part.count + elapsed % unit.seconds(),
    ;
    assert forall|other: Unit| #[trigger] seconds_below(parts, other) < other.seconds() by {
        lemma_cons(part, Seq::<Part>::empty(), other);
    }
}

/// Whatever the accuracy, the parts never add up to more than the elapsed
/// duration, and they are greedy.
pub proof fn lemma_parts_within(elapsed: u64, accuracy: AccuracyMode)
    ensures
        is_greedy(parts_of(elapsed, accuracy)),
        total_seconds(parts_of(elapsed, accuracy)) <= elapsed,
        accuracy == AccuracyMode::Precise ==> total_seconds(parts_of(elapsed, accuracy))
            == elapsed,
        accuracy == AccuracyMode::Rough ==> parts_of(elapsed, accuracy).len() <= 1,
{
    match accuracy {
        AccuracyMode::Precise => {
            lemma_precise_parts_exact(elapsed);
        },
        AccuracyMode::Rough => {
            if elapsed >= ROUGH_MINIMUM {
                lemma_rough_parts_first(elapsed);
            }
        },
    }
}

} // verus!
