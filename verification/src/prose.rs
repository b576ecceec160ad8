//! What holds of English text: which characters it is made of and how it
//! starts and ends.
use crate::decimal::{is_digit, lemma_decimal_text_digits};
use crate::decomposition::Part;
use crate::render::{long_part, long_parts, long_text};
use crate::text::joined;
use crate::unit::{is_name_letter, lemma_name_letters, lemma_name_tells_unit};
use vstd::prelude::*;

verus! {

/// Whether `c` can stand in English text: a digit, a name letter, a space
/// or a comma.
pub open spec fn is_prose_char(c: char) -> bool {
    is_digit(c) || is_name_letter(c) || c == ' ' || c == ','
}

/// Whether `text` reads as prose: it starts with a digit, ends with a
/// letter, and holds prose characters only.
pub open spec fn is_prose(text: Seq<char>) -> bool {
    &&& text.len() >= 5
    &&& is_digit(text[0])
    &&& is_name_letter(text.last())
    &&& forall|k: int| 0 <= k < text.len() ==> is_prose_char(#[trigger] text[k])
}

/// One part in words is prose.
pub proof fn lemma_long_part_is_prose(part: Part)
    ensures
        is_prose(long_part(part)),
{
    lemma_decimal_text_digits(part.count);
    lemma_name_letters(part.unit);
    lemma_name_tells_unit(part.unit, part.unit);
}

/// Prose joined to prose by ", " or " and " is prose.
proof fn lemma_prose_joined(before: Seq<char>, link: Seq<char>, after: Seq<char>)
    requires
        is_prose(before),
        is_prose(after),
        link == ", "@ || link == " and "@,
    ensures
        is_prose(before + link + after),
{
    reveal_strlit(", ");
    reveal_strlit(" and ");
    let text = before + link + after;
    assert forall|k: int| 0 <= k < text.len() implies is_prose_char(#[trigger] text[k]) by {
        if k < before.len() {
            assert(text[k] == before[k]);
        } else if k < before.len() + link.len() {
            assert(text[k] == link[k - before.len()]);
        } else {
            assert(text[k] == after[k - before.len() - link.len()]);
        }
    }
    assert(text[0] == before[0]);
    assert(text.last() == after.last());
}

/// The first `done` parts in words, joined by ", ", are prose.
proof fn lemma_joined_words(parts: Seq<Part>, done: int)
    requires
        1 <= done <= parts.len(),
    ensures
        is_prose(joined(long_parts(parts).take(done), ", "@)),
    decreases done,
{
    let words = long_parts(parts);
    lemma_long_part_is_prose(parts[done - 1]);
    assert(words.take(done).last() == words[done - 1]);
    if done > 1 {
        lemma_joined_words(parts, done - 1);
        assert(words.take(done).drop_last() == words.take(done - 1));
        lemma_prose_joined(joined(words.take(done - 1), ", "@), ", "@, words[done - 1]);
    }
}

/// English text with at least one part is prose: it starts with the first
/// count and ends with the last unit's name, with nothing before or after.
pub proof fn lemma_long_text_is_prose(parts: Seq<Part>)
    requires
        parts.len() > 0,
    ensures
        is_prose(long_text(parts)),
{
    lemma_long_part_is_prose(parts.last());
    if parts.len() > 1 {
        let front = parts.drop_last();
        lemma_joined_words(front, front.len() as int);
        assert(long_parts(front).take(front.len() as int) == long_parts(front));
        lemma_prose_joined(joined(long_parts(front), ", "@), " and "@, long_part(parts.last()));
    }
}

} // verus!
