//! What the bot does when a button or menu is used: the permanent components, the
//! buttons under a profile, and which of its own old messages it replaces.
use vstd::prelude::*;

use crate::text::{parse_u64, parse_unsigned, starts_with, text_eq};

verus! {

/// What a component interaction carries.
pub enum ComponentData {
    Button,
    /// the values picked in a text menu
    StringSelect(Vec<String>),
    /// the users picked in a user menu
    UserSelect(Vec<u64>),
    /// any other kind of component
    Other,
}

/// What is done with an interaction on a permanent component.
#[derive(Debug)]
pub enum ComponentAction {
    /// The stock market handles it.
    StockMarket,
    /// The birthday form was submitted.
    BirthdaySubmit,
    /// A choice of the profile edit menu.
    EditProfile(String),
    /// Delete the message the button is on.
    DeleteMessage,
    /// Show the class menu.
    OpenClassMenu,
    /// Toggle the class with this bit.
    ToggleClass(u8),
    /// Make this user the favorite.
    SetFavoriteUser(u64),
    /// Ask for a steam link code.
    LinkSteam,
    /// Acknowledge the interaction and do nothing else.
    Acknowledge,
    /// A menu was used without a value.
    NoChoice,
    /// The class menu gave a value that is no number from 0 to 255.
    BadClassChoice,
    /// Not a permanent component.
    Ignore,
}

/// The text of an error answered for [`ComponentAction::NoChoice`].
pub const NO_CHOICE: &'static str = "No choice";

/// `s` starts with `p`.
pub open spec fn has_prefix(s: Seq<char>, p: Seq<char>) -> bool {
    p.len() <= s.len() && s.take(p.len() as int) == p
}

/// What an interaction with the text menu `id` and data `data` does, when `id` is
/// one of the permanent ones other than the stock market.
pub open spec fn route_ok(id: Seq<char>, data: ComponentData, r: ComponentAction) -> bool {
    if id == "birthday.submit"@ {
        r is BirthdaySubmit
    } else if id == "profile.edit.select"@ {
        match data {
            ComponentData::StringSelect(v) => if v.len() == 0 {
                r is NoChoice
            } else {
                r matches ComponentAction::EditProfile(c) && c@ == v[0]@
            },
            _ => r is Acknowledge,
        }
    } else if id == "delete.msg"@ {
        if data is Button {
            r is DeleteMessage
        } else {
            r is Ignore
        }
    } else if id == "profile.edit.classes"@ {
        if data is Button {
            r is OpenClassMenu
        } else {
            r is Ignore
        }
    } else if id == "profile.edit.class.select"@ {
        match data {
            ComponentData::StringSelect(v) => if v.len() == 0 {
                r is NoChoice
            } else {
                match parse_unsigned(v[0]@, u8::MAX as int) {
                    Some(b) => r == ComponentAction::ToggleClass(b as u8),
                    None => r is BadClassChoice,
                }
            },
            _ => r is Acknowledge,
        }
    } else if id == "profile.edit.favorite.select"@ {
        match data {
            ComponentData::UserSelect(v) => if v.len() == 0 {
                r is NoChoice
            } else {
                r == ComponentAction::SetFavoriteUser(v[0])
            },
            _ => r is Acknowledge,
        }
    } else if id == "steam.link"@ {
        r is LinkSteam
    } else {
        r is Ignore
    }
}

/// Reads a class menu value as `str::parse::<u8>` does.
fn parse_u8(s: &str) -> (r: Option<u8>)
    ensures
        match parse_unsigned(s@, u8::MAX as int) {
            Some(v) => r == Some(v as u8),
            None => r is None,
        },
{
    match parse_u64(s) {
        Some(v) => {
            proof {
                crate::text::lemma_parse_unsigned_nonneg(s@, u64::MAX as int);
                lemma_parse_smaller_limit(s@);
            }
            if v <= 255 {
                Some(v as u8)
            } else {
                None
            }
        },
        None => {
            proof {
                lemma_parse_smaller_limit(s@);
            }
            None
        },
    }
}

proof fn lemma_parse_smaller_limit(s: Seq<char>)
    ensures
        parse_unsigned(s, u8::MAX as int) == match parse_unsigned(s, u64::MAX as int) {
            Some(v) => if v <= 255 {
                Some(v)
            } else {
                None::<int>
            },
            None => None,
        },
{
}

/// What is done with an interaction on a permanent component with id `id`: ids
/// starting with `stock-market.` go to the stock market; the others are described
/// by [`route_ok`].
pub fn route_component(id: &str, data: &ComponentData) -> (r: ComponentAction)
    ensures
        has_prefix(id@, "stock-market."@) ==> r is StockMarket,
        !has_prefix(id@, "stock-market."@) ==> route_ok(id@, *data, r),
{
    if starts_with(id, "stock-market.") {
        return ComponentAction::StockMarket;
    }
    if text_eq(id, "birthday.submit") {
        ComponentAction::BirthdaySubmit
    } else if text_eq(id, "profile.edit.select") {
        match data {
            ComponentData::StringSelect(v) => if v.len() == 0 {
                ComponentAction::NoChoice
            } else {
                ComponentAction::EditProfile(v[0].clone())
            },
            _ => ComponentAction::Acknowledge,
        }
    } else if text_eq(id, "delete.msg") {
        match data {
            ComponentData::Button => ComponentAction::DeleteMessage,
            _ => ComponentAction::Ignore,
        }
    } else if text_eq(id, "profile.edit.classes") {
        match data {
            ComponentData::Button => ComponentAction::OpenClassMenu,
            _ => ComponentAction::Ignore,
        }
    } else if text_eq(id, "profile.edit.class.select") {
        match data {
            ComponentData::StringSelect(v) => if v.len() == 0 {
                ComponentAction::NoChoice
            } else {
                match parse_u8(v[0].as_str()) {
                    Some(b) => ComponentAction::ToggleClass(b),
                    None => ComponentAction::BadClassChoice,
                }
            },
            _ => ComponentAction::Acknowledge,
        }
    } else if text_eq(id, "profile.edit.favorite.select") {
        match data {
            ComponentData::UserSelect(v) => if v.len() == 0 {
                ComponentAction::NoChoice
            } else {
                ComponentAction::SetFavoriteUser(v[0])
            },
            _ => ComponentAction::Acknowledge,
        }
    } else if text_eq(id, "steam.link") {
        ComponentAction::LinkSteam
    } else {
        ComponentAction::Ignore
    }
}

/// The answer when a favorite user was picked.
pub fn favorite_selected_text(user: u64) -> (s: String)
    ensures
        s@ == "Selected "@ + crate::wallet::at(user) + " as your favorite."@,
{
    let mut s = String::from_str("Selected ");
    crate::wallet::push_mention(&mut s, user);
    s.append(" as your favorite.");
    s
}

/// What a button under a profile asks for.
#[derive(Debug, Clone, Copy, PartialEq, Eq, Structural)]
pub enum ProfileButton {
    /// A like (`true`) or dislike.
    Vote(bool),
    /// The owner wants to edit the profile.
    Edit,
    /// Someone else pressed edit.
    NotYours,
    /// Fetch the profile again.
    Reload,
    /// Not one of the profile's buttons.
    Ignore,
}

/// The answer when someone else presses edit.
pub const NOT_YOUR_PROFILE: &'static str = "This is not your profile! >:3";

/// The id of one of the buttons under the profile message `uuid`.
pub open spec fn button_id(uuid: Seq<char>, suffix: Seq<char>) -> Seq<char> {
    uuid + suffix
}

/// The ids of the like, dislike, edit and reload buttons under the profile message
/// `uuid`.
pub fn profile_button_ids(uuid: &str) -> (r: (String, String, String, String))
    ensures
        r.0@ == button_id(uuid@, "-like"@),
        r.1@ == button_id(uuid@, "-dislike"@),
        r.2@ == button_id(uuid@, "-edit"@),
        r.3@ == button_id(uuid@, "-reload"@),
{
    let mut like = uuid.to_owned();
    like.append("-like");
    let mut dislike = uuid.to_owned();
    dislike.append("-dislike");
    let mut edit = uuid.to_owned();
    edit.append("-edit");
    let mut reload = uuid.to_owned();
    reload.append("-reload");
    (like, dislike, edit, reload)
}

/// What the button `custom_id`, pressed by `clicker` under the profile message
/// `uuid` of `owner`'s profile, asks for.
pub fn profile_button(uuid: &str, custom_id: &str, clicker: u64, owner: u64) -> (r: ProfileButton)
    ensures
        r == if custom_id@ == button_id(uuid@, "-like"@) {
            ProfileButton::Vote(true)
        } else if custom_id@ == button_id(uuid@, "-dislike"@) {
            ProfileButton::Vote(false)
        } else if custom_id@ == button_id(uuid@, "-edit"@) {
            if clicker == owner {
                ProfileButton::Edit
            } else {
                ProfileButton::NotYours
            }
        } else if custom_id@ == button_id(uuid@, "-reload"@) {
            ProfileButton::Reload
        } else {
            ProfileButton::Ignore
        },
{
    let (like, dislike, edit, reload) = profile_button_ids(uuid);
    if text_eq(custom_id, like.as_str()) {
        ProfileButton::Vote(true)
    } else if text_eq(custom_id, dislike.as_str()) {
        ProfileButton::Vote(false)
    } else if text_eq(custom_id, edit.as_str()) {
        if clicker == owner {
            ProfileButton::Edit
        } else {
            ProfileButton::NotYours
        }
    } else if text_eq(custom_id, reload.as_str()) {
        ProfileButton::Reload
    } else {
        ProfileButton::Ignore
    }
}

/// Whether a message is the profile that `caller` asked for last, which a new
/// profile replaces: the bot sent it, its first embed's first field is the votes,
/// and it answered `caller`'s command.
pub fn is_old_profile_message(
    by_bot: bool,
    first_field_name: Option<&str>,
    asked_by: Option<u64>,
    caller: u64,
) -> (b: bool)
    ensures
        b == (by_bot && (first_field_name matches Some(n) && n@ == "Votes"@) && asked_by == Some(caller)),
{
    by_bot && match first_field_name {
        Some(n) => text_eq(n, "Votes"),
        None => false,
    } && match asked_by {
        Some(u) => u == caller,
        None => false,
    }
}

/// Whether a message is a server status that a new one replaces: the bot sent it,
/// and it starts with the emoji of a status (🅰️, 🅱️ or 💀).
pub fn is_old_status_message(by_bot: bool, content: &str) -> (b: bool)
    ensures
        b == (by_bot && (has_prefix(content@, "🅰️"@) || has_prefix(content@, "🅱️"@) || has_prefix(
            content@,
            "💀"@,
        ))),
{
    by_bot && (starts_with(content, "🅰️") || starts_with(content, "🅱️") || starts_with(content, "💀"))
}

} // verus!
