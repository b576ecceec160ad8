//! Turning counted units into text.
use crate::compact::{is_bare, lemma_short_text_is_bare};
use crate::decimal::{append_decimal, decimal_text};
use crate::decomposition::{Decomposition, Part};
use crate::neutral::{is_tenseless, lemma_no_tense_marker};
use crate::text::joined;
use vstd::prelude::*;

verus! {

/// How the parts are worded.
#[derive(Clone, Copy, Debug, PartialEq, Eq, Structural)]
pub enum VerbosityMode {
    /// English words: "1 day and 6 hours".
    Long,
    /// One token per part: "1d 6h".
    Short,
}

impl VerbosityMode {
    /// The wording that a yes-or-no wish for full words stands for.
    pub open spec fn spec_from_long(long: bool) -> VerbosityMode {
        if long {
            VerbosityMode::Long
        } else {
            VerbosityMode::Short
        }
    }

    /// The wording that a yes-or-no wish for full words stands for: long
    /// where they are wished for, short where they are not.
    #[verifier::when_used_as_spec(spec_from_long)]
    pub fn from_long(long: bool) -> (verbosity: VerbosityMode)
        ensures
            verbosity == VerbosityMode::spec_from_long(long),
    {
        if long {
            VerbosityMode::Long
        } else {
            VerbosityMode::Short
        }
    }
}

/// The separator that compact text has where the caller has no other
/// wish: a single space.
pub const DEFAULT_SEPARATOR: char = ' ';

/// The separator that `text` asks for: its first character, or the default
/// where it is empty.
pub fn separator_from(text: &str) -> (separator: char)
    ensures
        separator == if text@.len() == 0 {
            DEFAULT_SEPARATOR
        } else {
            text@[0]
        },
{
    if text.is_empty() {
        DEFAULT_SEPARATOR
    } else {
        text.get_char(0)
    }
}

/// The text for a duration too short to have a magnitude.
pub open spec fn now_text() -> Seq<char> {
    "now"@
}

/// One part as a token: the count, then the unit's abbreviation.
pub open spec fn short_part(part: Part) -> Seq<char> {
    decimal_text(part.count) + part.unit.abbreviation_text()
}

/// One part in words: the count, a space, and the unit's name, in the
/// plural unless the count is one.
pub open spec fn long_part(part: Part) -> Seq<char> {
    decimal_text(part.count) + seq![' '] + if part.count == 1 {
        part.unit.name_text()
    } else {
        part.unit.plural_text()
    }
}

/// The token of every part, in order.
pub open spec fn short_parts(parts: Seq<Part>) -> Seq<Seq<char>> {
    Seq::new(parts.len(), |i: int| short_part(parts[i]))
}

/// The words of every part, in order.
pub open spec fn long_parts(parts: Seq<Part>) -> Seq<Seq<char>> {
    Seq::new(parts.len(), |i: int| long_part(parts[i]))
}

/// The compact text: "now" for no parts, else the tokens with one
/// `separator` between each two.
pub open spec fn short_text(parts: Seq<Part>, separator: char) -> Seq<char> {
    if parts.len() == 0 {
        now_text()
    } else {
        joined(short_parts(parts), seq![separator])
    }
}

/// The English text: "now" for no parts; one part alone; else all parts
/// but the last with ", " between them, then " and " and the last part.
pub open spec fn long_text(parts: Seq<Part>) -> Seq<char> {
    if parts.len() == 0 {
        now_text()
    } else if parts.len() == 1 {
        long_part(parts[0])
    } else {
        joined(long_parts(parts.drop_last()), ", "@) + " and "@ + long_part(parts.last())
    }
}

/// The text of the parts in the given wording. The separator matters to
/// the compact text only.
pub open spec fn rendered_text(parts: Seq<Part>, verbosity: VerbosityMode, separator: char) -> Seq<
    char,
> {
    match verbosity {
        VerbosityMode::Long => long_text(parts),
        VerbosityMode::Short => short_text(parts, separator),
    }
}

/// Appends the token of one part.
fn append_short_part(out: &mut String, part: &Part)
    ensures
        final(out)@ == old(out)@ + short_part(*part),
{
    append_decimal(out, part.count);
    out.append(part.unit.abbreviation());
}

/// Appends the words of one part.
fn append_long_part(out: &mut String, part: &Part)
    ensures
        final(out)@ == old(out)@ + long_part(*part),
{
    append_decimal(out, part.count);
    out.push(' ');
    if part.count == 1 {
        out.append(part.unit.name());
    } else {
        out.append(part.unit.plural());
    }
}

/// Joining one more item extends the joined text by the separator and the
/// item, or by the item alone if it is the first.
proof fn lemma_joined_step(items: Seq<Seq<char>>, separator: Seq<char>, done: int)
    requires
        0 <= done < items.len(),
    ensures
        joined(items.take(done + 1), separator) == if done == 0 {
            items[0]
        } else {
            joined(items.take(done), separator) + separator + items[done]
        },
{
    let next = items.take(done + 1);
    assert(next.last() == items[done]);
    assert(next.drop_last() == items.take(done));
}

/// The compact text of a decomposition: one token per part, a single
/// `separator` between each two, and "now" where there is no part.
pub fn apply_short_format(split: &Decomposition, separator: char) -> (text: String)
    ensures
        text@ == short_text(split@, separator),
        separator != ',' ==> is_bare(text@),
{
    proof {
        if separator != ',' {
            lemma_short_text_is_bare(split@, separator);
        }
    }
    let parts = split.parts();
    let n: usize = parts.len();
    if n == 0 {
        return "now".to_owned();
    }
    let ghost tokens = short_parts(parts@);
    let mut out = String::new();
    let mut i: usize = 0;
    while i < n
        invariant
            i <= n,
            n == parts@.len(),
            tokens == short_parts(parts@),
            i == 0 ==> out@ == Seq::<char>::empty(),
            i > 0 ==> out@ == joined(tokens.take(i as int), seq![separator]),
        decreases n - i,
    {
        if i > 0 {
            out.push(separator);
        }
        append_short_part(&mut out, &parts[i]);
        proof {
            lemma_joined_step(tokens, seq![separator], i as int);
        }
        i = i + 1;
    }
    assert(tokens.take(n as int) == tokens);
    out
}

/// The English text of a decomposition: every part in words, commas
/// between all but the last two, "and" before the last, and "now" where
/// there is no part.
pub fn apply_long_format(split: &Decomposition) -> (text: String)
    ensures
        text@ == long_text(split@),
{
    let parts = split.parts();
    let n: usize = parts.len();
    if n == 0 {
        return "now".to_owned();
    }
    let ghost words = long_parts(parts@.drop_last());
    let mut out = String::new();
    let mut i: usize = 0;
    while i + 1 < n
        invariant
            i + 1 <= n,
            n == parts@.len(),
            words == long_parts(parts@.drop_last()),
            i == 0 ==> out@ == Seq::<char>::empty(),
            i > 0 ==> out@ == joined(words.take(i as int), ", "@),
        decreases n - i,
    {
        if i > 0 {
            out.append(", ");
        }
        append_long_part(&mut out, &parts[i]);
        proof {
            lemma_joined_step(words, ", "@, i as int);
        }
        i = i + 1;
    }
    assert(words.take(n - 1) == words);
    if n > 1 {
        out.append(" and ");
    }
    append_long_part(&mut out, &parts[n - 1]);
    out
}

/// The text of a decomposition in the given wording.
pub fn render(split: &Decomposition, verbosity: VerbosityMode, separator: char) -> (text: String)
    ensures
        text@ == rendered_text(split@, verbosity, separator),
        verbosity == VerbosityMode::Short && separator != ',' ==> is_bare(text@),
        is_tenseless(text@),
{
    proof {
        lemma_no_tense_marker(split@, verbosity, separator);
    }
    match verbosity {
        VerbosityMode::Long => apply_long_format(split),
        VerbosityMode::Short => apply_short_format(split, separator),
    }
}

/// Rendering is repeatable: the text depends on the parts, the wording
/// and the separator and on nothing else, so two renderings of the same
/// parts in the same wording are the same text.
pub proof fn lemma_render_repeatable(
    first: Seq<char>,
    second: Seq<char>,
    parts: Seq<Part>,
    verbosity: VerbosityMode,
    separator: char,
)
    requires
        first == rendered_text(parts, verbosity, separator),
        second == rendered_text(parts, verbosity, separator),
    ensures
        first == second,
{
}

} // verus!
