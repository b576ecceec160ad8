//! What holds of compact text: which characters it is made of, what it
//! never contains, and how the separator enters it.
use crate::decimal::{is_digit, lemma_decimal_text_digits};
use crate::decomposition::Part;
use crate::render::{now_text, short_part, short_parts, short_text};
use crate::text::{joined, occurs_at, occurs_in, with_char_replaced};
use crate::unit::{is_abbreviation_letter, lemma_abbreviation_letters, Unit};
use vstd::prelude::*;

verus! {

/// Whether `c` can stand in a token: a digit or an abbreviation letter.
pub open spec fn is_token_char(c: char) -> bool {
    is_digit(c) || is_abbreviation_letter(c)
}

/// Whether `text` is tokens with single separators between them: it
/// starts with a digit, ends with an abbreviation letter, holds token
/// characters and separators only, and after each separator that is no
/// token character itself comes a digit.
pub open spec fn is_token_run(text: Seq<char>, separator: char) -> bool {
    &&& text.len() >= 2
    &&& is_digit(text[0])
    &&& is_abbreviation_letter(text.last())
    &&& forall|k: int|
        0 <= k < text.len() ==> is_token_char(#[trigger] text[k]) || text[k] == separator
    &&& !is_token_char(separator) ==> forall|k: int|
        0 <= k < text.len() && #[trigger] text[k] == separator ==> k + 1 < text.len() && is_digit(
            text[k + 1],
        )
}

/// A token is digits followed by abbreviation letters.
pub proof fn lemma_short_part_shape(part: Part)
    ensures
        short_part(part).len() >= 2,
        is_digit(short_part(part)[0]),
        is_abbreviation_letter(short_part(part).last()),
        forall|k: int|
            0 <= k < short_part(part).len() ==> is_token_char(#[trigger] short_part(part)[k]),
{
    lemma_decimal_text_digits(part.count);
    lemma_abbreviation_letters(part.unit);
}

/// The first `done` tokens, joined, are a token run.
proof fn lemma_joined_tokens(parts: Seq<Part>, separator: char, done: int)
    requires
        1 <= done <= parts.len(),
    ensures
        is_token_run(joined(short_parts(parts).take(done), seq![separator]), separator),
    decreases done,
{
    let tokens = short_parts(parts);
    let text = joined(tokens.take(done), seq![separator]);
    let token = tokens[done - 1];
    lemma_short_part_shape(parts[done - 1]);
    assert(tokens.take(done).last() == token);
    if done == 1 {
        assert(text == token);
    } else {
        let before = joined(tokens.take(done - 1), seq![separator]);
        lemma_joined_tokens(parts, separator, done - 1);
        assert(tokens.take(done).drop_last() == tokens.take(done - 1));
        assert(text == before + seq![separator] + token);
        assert forall|k: int| 0 <= k < text.len() implies is_token_char(#[trigger] text[k])
            || text[k] == separator by {
            if k < before.len() {
                assert(text[k] == before[k]);
            } else if k > before.len() {
                assert(text[k] == token[k - before.len() - 1]);
            }
        }
        if !is_token_char(separator) {
            assert forall|k: int| 0 <= k < text.len() && #[trigger] text[k] == separator implies k
                + 1 < text.len() && is_digit(text[k + 1]) by {
                if k < before.len() {
                    assert(text[k] == before[k]);
                    if k + 1 < before.len() {
                        assert(text[k + 1] == before[k + 1]);
                    }
                } else if k == before.len() {
                    assert(text[k + 1] == token[0]);
                } else {
                    assert(text[k] == token[k - before.len() - 1]);
                }
            }
        }
    }
}

/// Compact text with at least one part is a token run: it starts with a
/// count and ends with an abbreviation, so nothing leads or trails it, and
/// a separator that cannot be mistaken for part of a token is always
/// followed by a count.
pub proof fn lemma_short_text_is_token_run(parts: Seq<Part>, separator: char)
    requires
        parts.len() > 0,
    ensures
        is_token_run(short_text(parts, separator), separator),
{
    lemma_joined_tokens(parts, separator, parts.len() as int);
    assert(short_parts(parts).take(parts.len() as int) == short_parts(parts));
}

/// Whether `text` is free of what only English text has: the conjunction
/// "and ", a comma, and the plural word of any unit.
pub open spec fn is_bare(text: Seq<char>) -> bool {
    &&& !occurs_in("and "@, text)
    &&& !occurs_in(","@, text)
    &&& forall|unit: Unit| !occurs_in(#[trigger] unit.plural_text(), text)
}

/// The plural word of `unit` does not occur in compact text.
proof fn lemma_short_text_has_no_plural(parts: Seq<Part>, separator: char, unit: Unit)
    ensures
        !occurs_in(unit.plural_text(), short_text(parts, separator)),
{
    let text = short_text(parts, separator);
    let word = unit.plural_text();
    reveal_strlit("years");
    reveal_strlit("months");
    reveal_strlit("weeks");
    reveal_strlit("days");
    reveal_strlit("hours");
    reveal_strlit("minutes");
    reveal_strlit("seconds");
    if parts.len() == 0 {
        reveal_strlit("now");
        assert forall|at: int| !occurs_at(word, text, at) by {}
    } else {
        lemma_short_text_is_token_run(parts, separator);
        assert forall|at: int| !occurs_at(word, text, at) by {
            if occurs_at(word, text, at) {
                let found = text.subrange(at, at + word.len());
                assert(found[0] == word[0]);
                assert(found[1] == word[1]);
                assert(found[2] == word[2]);
                assert(found[3] == word[3]);
                assert(text[at] == word[0]);
                assert(text[at + 1] == word[1]);
                assert(text[at + 2] == word[2]);
                assert(text[at + 3] == word[3]);
            }
        }
    }
}

/// Compact text holds no conjunction, no comma and no plural word of any
/// unit, as long as the separator is not itself a comma.
pub proof fn lemma_short_text_is_bare(parts: Seq<Part>, separator: char)
    requires
        separator != ',',
    ensures
        is_bare(short_text(parts, separator)),
{
    let text = short_text(parts, separator);
    reveal_strlit("and ");
    reveal_strlit(",");
    if parts.len() == 0 {
        reveal_strlit("now");
        assert forall|at: int| !occurs_at("and "@, text, at) by {}
        assert forall|at: int| !occurs_at(","@, text, at) by {
            if occurs_at(","@, text, at) {
                assert(text.subrange(at, at + 1)[0] == ',');
            }
        }
    } else {
        lemma_short_text_is_token_run(parts, separator);
        assert forall|at: int| !occurs_at("and "@, text, at) by {
            if occurs_at("and "@, text, at) {
                let found = text.subrange(at, at + 4);
                assert(found[0] == 'a' && found[1] == 'n');
                assert(text[at] == 'a' && text[at + 1] == 'n');
            }
        }
        assert forall|at: int| !occurs_at(","@, text, at) by {
            if occurs_at(","@, text, at) {
                let found = text.subrange(at, at + 1);
                assert(found[0] == ',');
                assert(text[at] == ',');
            }
        }
    }
    assert forall|unit: Unit| !occurs_in(#[trigger] unit.plural_text(), text) by {
        lemma_short_text_has_no_plural(parts, separator, unit);
    }
}

/// Exchanging characters goes through a concatenation piece by piece.
proof fn lemma_replaced_concat(a: Seq<char>, b: Seq<char>, from: char, to: char)
    ensures
        with_char_replaced(a + b, from, to) == with_char_replaced(a, from, to) + with_char_replaced(
            b,
            from,
            to,
        ),
{
}

/// The first `done` tokens joined by `separator` are the same tokens
/// joined by a space, with each space exchanged for `separator`.
proof fn lemma_joined_separator(parts: Seq<Part>, separator: char, done: int)
    requires
        1 <= done <= parts.len(),
    ensures
        joined(short_parts(parts).take(done), seq![separator]) == with_char_replaced(
            joined(short_parts(parts).take(done), seq![' ']),
            ' ',
            separator,
        ),
    decreases done,
{
    let tokens = short_parts(parts);
    let token = tokens[done - 1];
    lemma_short_part_shape(parts[done - 1]);
    assert(tokens.take(done).last() == token);
    assert(with_char_replaced(token, ' ', separator) == token);
    if done > 1 {
        let spaced = joined(tokens.take(done - 1), seq![' ']);
        lemma_joined_separator(parts, separator, done - 1);
        assert(tokens.take(done).drop_last() == tokens.take(done - 1));
        lemma_replaced_concat(spaced + seq![' '], token, ' ', separator);
        lemma_replaced_concat(spaced, seq![' '], ' ', separator);
        assert(with_char_replaced(seq![' '], ' ', separator) == seq![separator]);
    }
}

/// Compact text with any separator is the compact text with a space for
/// separator, each space exchanged for that separator.
pub proof fn lemma_separator_substitution(parts: Seq<Part>, separator: char)
    ensures
        short_text(parts, separator) == with_char_replaced(
            short_text(parts, ' '),
            ' ',
            separator,
        ),
{
    if parts.len() == 0 {
        reveal_strlit("now");
        assert(with_char_replaced(now_text(), ' ', separator) == now_text());
    } else {
        lemma_joined_separator(parts, separator, parts.len() as int);
        assert(short_parts(parts).take(parts.len() as int) == short_parts(parts));
    }
}

} // verus!
