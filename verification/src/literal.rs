//! Literals whose printed form would not read back as the same value.

use vstd::prelude::*;
use vstd::string::*;

use crate::ast::{Literal, LiteralKind};
use crate::error::{CanonicalizeError, ErrorView};
use crate::text::chars_of;

verus! {

/// The character before position `i`, or NUL before the first.
pub open spec fn previous_char(text: Seq<char>, i: int) -> char {
    if i == 0 {
        '\0'
    } else {
        text[i - 1]
    }
}

/// Whether printing `text` inside `quote` delimiters preserves it: no quote in it already
/// looks escaped, by a backslash before it or by a second quote after it.
pub open spec fn survives_quoting(text: Seq<char>, quote: char) -> bool {
    forall|i: int|
        0 <= i < text.len() && #[trigger] text[i] == quote ==> !(previous_char(text, i) == '\\' || (
        i + 1 < text.len() && text[i + 1] == quote))
}

/// Reports whether printing `text` inside `quote` delimiters preserves it.
///
/// `sqlparser` leaves a quote alone when it already looks escaped, either doubled or preceded
/// by a backslash, so such text reads back one escape level shorter than it went in.
pub fn quoting_survives_printing(text: &str, quote: char) -> (r: bool)
    ensures
        r == survives_quoting(text@, quote),
{
    let characters = chars_of(text);
    let mut previous: char = '\0';
    let mut i: usize = 0;
    while i < characters.len()
        invariant
            i <= characters.len(),
            characters@ == text@,
            previous == previous_char(text@, i as int),
            forall|k: int|
                0 <= k < i && #[trigger] text@[k] == quote ==> !(previous_char(text@, k) == '\\'
                    || (k + 1 < text@.len() && text@[k + 1] == quote)),
        decreases characters.len() - i,
    {
        let character = characters[i];
        if character == quote && (previous == '\\' || (i + 1 < characters.len() && characters[i
            + 1] == quote)) {
            assert(text@[i as int] == quote);
            return false;
        }
        previous = character;
        i = i + 1;
    }
    true
}

/// Whether the parser prints the literal without changing its value.
pub open spec fn literal_intact(kind: LiteralKind) -> bool {
    match kind {
        LiteralKind::SingleQuoted(text) => survives_quoting(text@, '\''),
        LiteralKind::NationalString(text) => survives_quoting(text@, '\''),
        LiteralKind::DoubleQuoted(text) => survives_quoting(text@, '"'),
        _ => true,
    }
}

/// Rejects a literal the parser cannot print without changing its value.
pub fn reject_lossy_quoting(value: &Literal) -> (r: Result<(), CanonicalizeError>)
    ensures
        match r {
            Ok(()) => literal_intact(value.kind),
            Err(e) => !literal_intact(value.kind) && e@ == ErrorView::NotRoundTrippable(
                "string literal"@,
            ),
        },
{
    let intact = match &value.kind {
        LiteralKind::SingleQuoted(text) => quoting_survives_printing(text.as_str(), '\''),
        LiteralKind::NationalString(text) => quoting_survives_printing(text.as_str(), '\''),
        LiteralKind::DoubleQuoted(text) => quoting_survives_printing(text.as_str(), '"'),
        _ => true,
    };
    if intact {
        Ok(())
    } else {
        Err(CanonicalizeError::NotRoundTrippable(String::from_str("string literal")))
    }
}

} // verus!
