//! The text names a magnitude and never a direction: no wording holds a
//! marker of past or future.
use crate::compact::lemma_short_text_is_token_run;
use crate::decomposition::Part;
use crate::prose::lemma_long_text_is_prose;
use crate::render::{rendered_text, VerbosityMode};
use crate::text::{occurs_at, occurs_in};
use vstd::prelude::*;

verus! {

/// Whether `text` is free of the markers of past and future, "ago" and
/// "from now".
pub open spec fn is_tenseless(text: Seq<char>) -> bool {
    &&& !occurs_in("ago"@, text)
    &&& !occurs_in("from now"@, text)
}

/// Rendered text holds no marker of past or future, whatever the parts,
/// the wording and the separator.
pub proof fn lemma_no_tense_marker(parts: Seq<Part>, verbosity: VerbosityMode, separator: char)
    ensures
        is_tenseless(rendered_text(parts, verbosity, separator)),
{
    let text = rendered_text(parts, verbosity, separator);
    reveal_strlit("ago");
    reveal_strlit("from now");
    reveal_strlit("now");
    if parts.len() > 0 {
        match verbosity {
            VerbosityMode::Long => lemma_long_text_is_prose(parts),
            VerbosityMode::Short => lemma_short_text_is_token_run(parts, separator),
        }
    }
    assert forall|at: int| !occurs_at("ago"@, text, at) by {
        if occurs_at("ago"@, text, at) {
            let found = text.subrange(at, at + 3);
            assert(found[0] == 'a' && found[1] == 'g');
            assert(text[at] == 'a' && text[at + 1] == 'g');
        }
    }
    assert forall|at: int| !occurs_at("from now"@, text, at) by {
        if occurs_at("from now"@, text, at) {
            let found = text.subrange(at, at + 8);
            assert(found[0] == 'f' && found[1] == 'r');
            assert(text[at] == 'f' && text[at + 1] == 'r');
        }
    }
}

} // verus!
