//! What the `regex` and `emojito` crates find in a text.
use vstd::prelude::*;

verus! {

/// What `emojito::find_emoji` finds in a text: the name and the codepoints (hex
/// numbers separated by spaces) of each unicode emoji, in order.
pub uninterp spec fn unicode_emojis(content: Seq<char>) -> Seq<(Seq<char>, Seq<char>)>;

/// The captures of the regex `<(a?):([A-Za-z0-9_-]+):(\d+)>` over a text, as
/// `Regex::captures_iter` finds them: for each match, in order, the `a` marking an
/// animated emoji (or nothing), the name and the id.
pub uninterp spec fn discord_emoji_captures(content: Seq<char>) -> Seq<(Seq<char>, Seq<char>, Seq<char>)>;

/// Calls `emojito::find_emoji`, and gives the name and codepoints of each emoji it
/// finds, in order.
#[verifier::external_body]
pub(crate) fn find_unicode_emojis(content: &str) -> (v: Vec<(String, String)>)
    ensures
        v@.map_values(|e: (String, String)| (e.0@, e.1@)) == unicode_emojis(content@),
{
    emojito::find_emoji(content).iter().map(|e| (e.name.to_owned(), e.codepoint.to_owned())).collect()
}

/// Runs the regex of [`discord_emoji_captures`] over a text with
/// `Regex::captures_iter`, and gives its three groups for each match.
#[verifier::external_body]
pub(crate) fn find_discord_emojis(content: &str) -> (v: Vec<(String, String, String)>)
    ensures
        v@.map_values(|c: (String, String, String)| (c.0@, c.1@, c.2@)) == discord_emoji_captures(
            content@,
        ),
{
    let re = regex::Regex::new(r#"<(a?):([A-Za-z0-9_-]+):(\d+)>"#).unwrap();
    re.captures_iter(content).map(|c| (c[1].to_owned(), c[2].to_owned(), c[3].to_owned())).collect()
}

/// The two groups of the regex `^(\d{2}):(\d{2})$` when it matches the whole text
/// (a guess written `MM:SS`), as `Regex::captures` finds them.
pub uninterp spec fn clock_guess_captures(text: Seq<char>) -> Option<(Seq<char>, Seq<char>)>;

/// Matches a text against the regex of [`clock_guess_captures`] with
/// `Regex::captures`, and gives its two groups; each group is two characters, as
/// `\d{2}` stands for exactly two digit characters.
#[verifier::external_body]
pub(crate) fn find_clock_guess(text: &str) -> (r: Option<(String, String)>)
    ensures
        match r {
            Some(c) => clock_guess_captures(text@) == Some((c.0@, c.1@)) && c.0@.len() == 2
                && c.1@.len() == 2,
            None => clock_guess_captures(text@) is None,
        },
{
    let re = regex::Regex::new(r"^(\d{2}):(\d{2})$").unwrap();
    re.captures(text).map(|c| (c[1].to_owned(), c[2].to_owned()))
}

/// The three groups of the regex `:bangbang: (\w+) Pull: ([\w ()]+) #(\d+)` at its
/// first match in a text (the title of a pull message), as `Regex::captures` finds
/// them: the rarity, the reward's name and its number.
pub uninterp spec fn pull_title_captures(text: Seq<char>) -> Option<(Seq<char>, Seq<char>, Seq<char>)>;

/// The group of the regex `\*\*\+(\d+)\*\*` at its first match in a text (the
/// description of a pull message): the catcoin won.
pub uninterp spec fn pull_desc_capture(text: Seq<char>) -> Option<Seq<char>>;

/// Matches a pull message's title against the regex of [`pull_title_captures`] with
/// `Regex::captures`, and gives its three groups.
#[verifier::external_body]
pub(crate) fn find_pull_title(text: &str) -> (r: Option<(String, String, String)>)
    ensures
        match r {
            Some(c) => pull_title_captures(text@) == Some((c.0@, c.1@, c.2@)),
            None => pull_title_captures(text@) is None,
        },
{
    let re = regex::Regex::new(r#":bangbang: (\w+) Pull: ([\w ()]+) #(\d+)"#).unwrap();
    re.captures(text).map(|c| (c[1].to_owned(), c[2].to_owned(), c[3].to_owned()))
}

/// Matches a pull message's description against the regex of [`pull_desc_capture`]
/// with `Regex::captures`, and gives its group.
#[verifier::external_body]
pub(crate) fn find_pull_desc(text: &str) -> (r: Option<String>)
    ensures
        match r {
            Some(c) => pull_desc_capture(text@) == Some(c@),
            None => pull_desc_capture(text@) is None,
        },
{
    let re = regex::Regex::new(r#"\*\*\+(\d+)\*\*"#).unwrap();
    re.captures(text).map(|c| c[1].to_owned())
}

/// The group of the regex `"maxplayers" is "(\d+)"` at its first match in a text
/// (a server's answer to `maxplayers`), as `Regex::captures` finds it.
pub uninterp spec fn maxplayers_capture(text: Seq<char>) -> Option<Seq<char>>;

/// Matches a server's answer against the regex of [`maxplayers_capture`] with
/// `Regex::captures`, and gives its group, which is one or more digit characters (so
/// it does not start with a minus sign).
#[verifier::external_body]
pub(crate) fn find_maxplayers(text: &str) -> (r: Option<String>)
    ensures
        match r {
            Some(c) => maxplayers_capture(text@) == Some(c@) && c@.len() > 0 && c@[0] != '-',
            None => maxplayers_capture(text@) is None,
        },
{
    let re = regex::Regex::new(r#""maxplayers" is "(\d+)""#).unwrap();
    re.captures(text).map(|c| c[1].to_owned())
}

/// Whether the url regex of profile links,
/// `https?:\/\/(www\.)?[-a-zA-Z0-9@:%._\+~#=]{1,256}\.[a-zA-Z0-9()]{1,6}\b([-a-zA-Z0-9()@:%_\+.~#?&//=]*)`,
/// matches somewhere in a text (`Regex::is_match`).
pub uninterp spec fn url_pattern_matches(text: Seq<char>) -> bool;

/// Runs `Regex::is_match` with the regex of [`url_pattern_matches`].
#[verifier::external_body]
pub(crate) fn looks_like_url(text: &str) -> (b: bool)
    ensures
        b == url_pattern_matches(text@),
{
    let re = regex::Regex::new(
        r#"https?:\/\/(www\.)?[-a-zA-Z0-9@:%._\+~#=]{1,256}\.[a-zA-Z0-9()]{1,6}\b([-a-zA-Z0-9()@:%_\+.~#?&//=]*)"#,
    ).unwrap();
    re.is_match(text)
}

/// The whole text of the first match of the regex `(\[U:\d+:\d+\])` in a text (a
/// steam id such as `[U:1:123]`), as `Regex::captures` finds it.
pub uninterp spec fn steam3_in(text: Seq<char>) -> Option<Seq<char>>;

/// Finds the first steam id of [`steam3_in`] with `Regex::captures`.
#[verifier::external_body]
pub(crate) fn find_steam3(text: &str) -> (r: Option<String>)
    ensures
        match r {
            Some(c) => steam3_in(text@) == Some(c@),
            None => steam3_in(text@) is None,
        },
{
    let re = regex::Regex::new(r"(\[U:\d+:\d+\])").unwrap();
    re.captures(text).and_then(|c| c.get(0).map(|m| m.as_str().to_owned()))
}

/// The three groups of the regex `^(\d{1,2})/(\d{1,2})/(\d{4})$` when it matches
/// the whole text (a birthday `MM/DD/YYYY`), as `Regex::captures` finds them.
pub uninterp spec fn birthday_captures(text: Seq<char>) -> Option<(Seq<char>, Seq<char>, Seq<char>)>;

/// Matches a text against the regex of [`birthday_captures`] with `Regex::captures`,
/// and gives its three groups: one or two digit characters, one or two, and four.
#[verifier::external_body]
pub(crate) fn find_birthday(text: &str) -> (r: Option<(String, String, String)>)
    ensures
        match r {
            Some(c) => birthday_captures(text@) == Some((c.0@, c.1@, c.2@)) && 1 <= c.0@.len() <= 2 && 1
                <= c.1@.len() <= 2 && c.2@.len() == 4 && c.2@[0] != '-',
            None => birthday_captures(text@) is None,
        },
{
    let re = regex::Regex::new(r#"^(\d{1,2})/(\d{1,2})/(\d{4})$"#).unwrap();
    re.captures(text).map(|c| (c[1].to_owned(), c[2].to_owned(), c[3].to_owned()))
}

/// The two groups of the regex `(?:(STEAM_\d+:\d+:\d+)|\[?(.:1:\d+)]?)` at its first
/// match in a text (a steam id such as `STEAM_0:0:150459717` or `[U:1:125818436]`),
/// as `Regex::captures` finds them: the legacy id, or the body of a steam3 id.
pub uninterp spec fn steam_id_captures(text: Seq<char>) -> Option<(Option<Seq<char>>, Option<Seq<char>>)>;

/// The captured groups as plain characters.
pub open spec fn caps_view(r: Option<(Option<String>, Option<String>)>) -> Option<(Option<Seq<char>>, Option<Seq<char>>)> {
    match r {
        Some((a, b)) => Some((
            match a {
                Some(x) => Some(x@),
                None => None,
            },
            match b {
                Some(x) => Some(x@),
                None => None,
            },
        )),
        None => None,
    }
}

/// Matches a text against the regex of [`steam_id_captures`] with
/// `Regex::captures`, and gives its two groups.
#[verifier::external_body]
pub(crate) fn find_steam_id(text: &str) -> (r: Option<(Option<String>, Option<String>)>)
    ensures
        caps_view(r) == steam_id_captures(text@),
{
    let re = regex::Regex::new(r#"(?:(STEAM_\d+:\d+:\d+)|\[?(.:1:\d+)]?)"#).unwrap();
    re.captures(text).map(|c| (c.get(1).map(|m| m.as_str().to_owned()), c.get(2).map(|m| m.as_str().to_owned())))
}

} // verus!
