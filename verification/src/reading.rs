//! Reading a part back from its text: the count ends where the digits
//! end, and what follows names the unit.
use crate::decimal::{
    decimal_text, is_digit, lemma_decimal_text_digits, lemma_decimal_text_injective,
};
use crate::decomposition::Part;
use crate::render::{long_part, now_text, rendered_text, short_part, short_parts, VerbosityMode};
use crate::unit::{
    is_abbreviation_letter, lemma_abbreviation_letters, lemma_abbreviation_tells_unit,
    lemma_name_tells_unit,
};
use vstd::prelude::*;

verus! {

/// Two texts that each start with digits and go on with something that is
/// no digit are equal only if both pieces are.
pub proof fn lemma_digits_end_once(
    digits_a: Seq<char>,
    rest_a: Seq<char>,
    digits_b: Seq<char>,
    rest_b: Seq<char>,
)
    requires
        forall|i: int| 0 <= i < digits_a.len() ==> is_digit(#[trigger] digits_a[i]),
        forall|i: int| 0 <= i < digits_b.len() ==> is_digit(#[trigger] digits_b[i]),
        rest_a.len() > 0 && !is_digit(rest_a[0]),
        rest_b.len() > 0 && !is_digit(rest_b[0]),
        digits_a + rest_a == digits_b + rest_b,
    ensures
        digits_a == digits_b,
        rest_a == rest_b,
{
    let text = digits_a + rest_a;
    if digits_a.len() < digits_b.len() {
        assert(text[digits_a.len() as int] == rest_a[0]);
        assert((digits_b + rest_b)[digits_a.len() as int] == digits_b[digits_a.len() as int]);
    }
    if digits_b.len() < digits_a.len() {
        assert((digits_b + rest_b)[digits_b.len() as int] == rest_b[0]);
        assert(text[digits_b.len() as int] == digits_a[digits_b.len() as int]);
    }
    assert(digits_a == text.subrange(0, digits_a.len() as int));
    assert(digits_b == (digits_b + rest_b).subrange(0, digits_b.len() as int));
    assert(rest_a == text.subrange(digits_a.len() as int, text.len() as int));
    assert(rest_b == (digits_b + rest_b).subrange(digits_b.len() as int, text.len() as int));
}

/// Two parts with the same token are the same part.
pub proof fn lemma_short_part_tells_part(a: Part, b: Part)
    requires
        short_part(a) == short_part(b),
    ensures
        a == b,
{
    lemma_decimal_text_digits(a.count);
    lemma_decimal_text_digits(b.count);
    lemma_abbreviation_letters(a.unit);
    lemma_abbreviation_letters(b.unit);
    assert(is_abbreviation_letter(a.unit.abbreviation_text()[0]));
    assert(is_abbreviation_letter(b.unit.abbreviation_text()[0]));
    lemma_digits_end_once(
        decimal_text(a.count),
        a.unit.abbreviation_text(),
        decimal_text(b.count),
        b.unit.abbreviation_text(),
    );
    lemma_decimal_text_injective(a.count, b.count);
    lemma_abbreviation_tells_unit(a.unit, b.unit);
}

/// Two parts with the same words are the same part.
pub proof fn lemma_long_part_tells_part(a: Part, b: Part)
    requires
        long_part(a) == long_part(b),
    ensures
        a == b,
{
    let words_a = if a.count == 1 {
        a.unit.name_text()
    } else {
        a.unit.plural_text()
    };
    let words_b = if b.count == 1 {
        b.unit.name_text()
    } else {
        b.unit.plural_text()
    };
    lemma_decimal_text_digits(a.count);
    lemma_decimal_text_digits(b.count);
    assert(long_part(a) == decimal_text(a.count) + (seq![' '] + words_a));
    assert(long_part(b) == decimal_text(b.count) + (seq![' '] + words_b));
    lemma_digits_end_once(
        decimal_text(a.count),
        seq![' '] + words_a,
        decimal_text(b.count),
        seq![' '] + words_b,
    );
    lemma_decimal_text_injective(a.count, b.count);
    assert(words_a == (seq![' '] + words_a).subrange(1, 1 + words_a.len() as int));
    assert(words_b == (seq![' '] + words_b).subrange(1, 1 + words_b.len() as int));
    lemma_name_tells_unit(a.unit, b.unit);
}

/// One part alone is rendered as that part, with nothing around it.
pub proof fn lemma_single_part_text(part: Part, verbosity: VerbosityMode, separator: char)
    ensures
        rendered_text(seq![part], verbosity, separator) == match verbosity {
            VerbosityMode::Long => long_part(part),
            VerbosityMode::Short => short_part(part),
        },
        rendered_text(seq![part], verbosity, separator) != now_text(),
{
    reveal_strlit("now");
    lemma_decimal_text_digits(part.count);
    assert(short_parts(seq![part])[0] == short_part(part));
    assert(is_digit(short_part(part)[0]));
    assert(is_digit(long_part(part)[0]));
    assert(!is_digit(now_text()[0]));
}

} // verus!
