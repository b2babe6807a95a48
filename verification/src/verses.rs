//! The bible verse command: a verse, quoted with its reference.
use vstd::prelude::*;

use crate::servers::{trim_text, trimmed};

verus! {

/// The text of a verse as it is shown: trimmed of surrounding white space.
pub fn verse_text(text: &str) -> (s: String)
    ensures
        s@ == trimmed(text@),
{
    trim_text(text)
}

/// The reply showing a verse: its text in quotes, then its reference.
pub fn quote_verse(shown: &str, reference: &str) -> (s: String)
    ensures
        s@ == "\""@ + shown@ + "\" ("@ + reference@ + ")."@,
{
    let mut s = String::from_str("\"");
    s.append(shown);
    s.append("\" (");
    s.append(reference);
    s.append(").");
    s
}

/// The reply to the verse command for a verse shown as written: its trimmed text
/// quoted with its reference (see [`verse_text`] and [`quote_verse`]).
pub fn verse_reply(text: &str, reference: &str) -> (s: String)
    ensures
        s@ == "\""@ + trimmed(text@) + "\" ("@ + reference@ + ")."@,
{
    let shown = verse_text(text);
    quote_verse(shown.as_str(), reference)
}

} // verus!
