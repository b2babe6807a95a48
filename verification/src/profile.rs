//! Editing a user's profile: what each choice of the edit menu does, and the checks
//! on the values entered.
use vstd::prelude::*;

use crate::patterns::{looks_like_url, url_pattern_matches};
use crate::text::{chars_of, parse_hex, parse_hex_u32, string_of, text_eq};

verus! {

/// How a value entered for a profile field is checked.
#[derive(Debug, Clone, Copy, PartialEq, Eq, Structural)]
pub enum FieldCheck {
    /// Any text.
    Any,
    /// A color `#RRGGBB`, found anywhere in the text.
    Color,
    /// A link.
    Url,
    /// A title, which must hold a `%` for the user's name.
    Title,
}

/// What a choice in the profile edit menu does.
#[derive(Debug, Clone, Copy, PartialEq, Eq)]
pub enum ProfileEdit {
    /// Ask for a value in a form, check it, and store it in a column.
    EditField { column: &'static str, check: FieldCheck },
    /// Show the class menu.
    OpenClassMenu,
    /// Show how to link a steam account.
    LinkSteam,
    /// Flip a yes/no column and answer.
    Toggle { column: &'static str, reply: &'static str },
    /// Empty a column and answer.
    Clear { column: &'static str, reply: &'static str },
    /// Ask for the favorite user.
    PromptFavoriteUser,
}

/// What a choice in the edit menu does, if anything.
pub open spec fn edit_for(choice: Seq<char>) -> Option<ProfileEdit> {
    if choice == "description"@ {
        Some(ProfileEdit::EditField { column: "description", check: FieldCheck::Any })
    } else if choice == "classes"@ {
        Some(ProfileEdit::OpenClassMenu)
    } else if choice == "link-steam"@ {
        Some(ProfileEdit::LinkSteam)
    } else if choice == "toggle-vote"@ {
        Some(ProfileEdit::Toggle { column: "hide_votes", reply: "Toggled vote visibility (refresh profile to update)" })
    } else if choice == "toggle-stats"@ {
        Some(ProfileEdit::Toggle { column: "hide_stats", reply: "Toggled stats visibility (refresh profile to update)" })
    } else if choice == "toggle-domination"@ {
        Some(ProfileEdit::Toggle {
            column: "hide_dominations",
            reply: "Toggled domination record visibility (refresh profile to update)",
        })
    } else if choice == "unlink-steam"@ {
        Some(ProfileEdit::Clear {
            column: "steamid",
            reply: "Unlinked your steam. Do /link again if you change your mind ^-^",
        })
    } else if choice == "color"@ {
        Some(ProfileEdit::EditField { column: "color", check: FieldCheck::Color })
    } else if choice == "favorite-map"@ {
        Some(ProfileEdit::EditField { column: "favorite_map", check: FieldCheck::Any })
    } else if choice == "favorite-user"@ {
        Some(ProfileEdit::PromptFavoriteUser)
    } else if choice == "remove-favorite-user"@ {
        Some(ProfileEdit::Clear { column: "favorite_user", reply: "Favorite user unset. 💔" })
    } else if choice == "url"@ {
        Some(ProfileEdit::EditField { column: "url", check: FieldCheck::Url })
    } else if choice == "title"@ {
        Some(ProfileEdit::EditField { column: "title", check: FieldCheck::Title })
    } else if choice == "image"@ {
        Some(ProfileEdit::EditField { column: "image", check: FieldCheck::Url })
    } else if choice == "remove-image"@ {
        Some(ProfileEdit::Clear { column: "image", reply: "Removed image from profile." })
    } else {
        None
    }
}

/// What a choice in the edit menu does (see [`edit_for`]).
pub fn dispatch_profile_edit(choice: &str) -> (r: Option<ProfileEdit>)
    ensures
        r == edit_for(choice@),
{
    if text_eq(choice, "description") {
        Some(ProfileEdit::EditField { column: "description", check: FieldCheck::Any })
    } else if text_eq(choice, "classes") {
        Some(ProfileEdit::OpenClassMenu)
    } else if text_eq(choice, "link-steam") {
        Some(ProfileEdit::LinkSteam)
    } else if text_eq(choice, "toggle-vote") {
        Some(ProfileEdit::Toggle { column: "hide_votes", reply: "Toggled vote visibility (refresh profile to update)" })
    } else if text_eq(choice, "toggle-stats") {
        Some(ProfileEdit::Toggle { column: "hide_stats", reply: "Toggled stats visibility (refresh profile to update)" })
    } else if text_eq(choice, "toggle-domination") {
        Some(ProfileEdit::Toggle {
            column: "hide_dominations",
            reply: "Toggled domination record visibility (refresh profile to update)",
        })
    } else if text_eq(choice, "unlink-steam") {
        Some(ProfileEdit::Clear {
            column: "steamid",
            reply: "Unlinked your steam. Do /link again if you change your mind ^-^",
        })
    } else if text_eq(choice, "color") {
        Some(ProfileEdit::EditField { column: "color", check: FieldCheck::Color })
    } else if text_eq(choice, "favorite-map") {
        Some(ProfileEdit::EditField { column: "favorite_map", check: FieldCheck::Any })
    } else if text_eq(choice, "favorite-user") {
        Some(ProfileEdit::PromptFavoriteUser)
    } else if text_eq(choice, "remove-favorite-user") {
        Some(ProfileEdit::Clear { column: "favorite_user", reply: "Favorite user unset. 💔" })
    } else if text_eq(choice, "url") {
        Some(ProfileEdit::EditField { column: "url", check: FieldCheck::Url })
    } else if text_eq(choice, "title") {
        Some(ProfileEdit::EditField { column: "title", check: FieldCheck::Title })
    } else if text_eq(choice, "image") {
        Some(ProfileEdit::EditField { column: "image", check: FieldCheck::Url })
    } else if text_eq(choice, "remove-image") {
        Some(ProfileEdit::Clear { column: "image", reply: "Removed image from profile." })
    } else {
        None
    }
}

/// Whether a character is an ASCII hexadecimal digit (`[0-9A-Fa-f]`).
pub open spec fn is_hex_char(c: char) -> bool {
    ('0' <= c && c <= '9') || ('a' <= c && c <= 'f') || ('A' <= c && c <= 'F')
}

/// Whether a color `#RRGGBB` (`#` and six hexadecimal digits) starts at `i`.
pub open spec fn color_at(s: Seq<char>, i: int) -> bool {
    &&& 0 <= i
    &&& i + 7 <= s.len()
    &&& s[i] == '#'
    &&& forall|k: int| i + 1 <= k < i + 7 ==> is_hex_char(#[trigger] s[k])
}

/// Where the first color at or after `i` starts.
pub open spec fn first_color_from(s: Seq<char>, i: int) -> Option<int>
    decreases s.len() - i,
{
    if i < 0 || i + 7 > s.len() {
        None
    } else if color_at(s, i) {
        Some(i)
    } else {
        first_color_from(s, i + 1)
    }
}

/// The six digits of the first color in a text: what the regex
/// `#([0-9A-Fa-f]{6})` captures at its leftmost match.
pub open spec fn color_capture(s: Seq<char>) -> Option<Seq<char>> {
    match first_color_from(s, 0) {
        Some(i) => Some(s.subrange(i + 1, i + 7)),
        None => None,
    }
}

fn is_hex_char_exec(c: char) -> (b: bool)
    ensures
        b == is_hex_char(c),
{
    ('0' <= c && c <= '9') || ('a' <= c && c <= 'f') || ('A' <= c && c <= 'F')
}

/// The six digits of the first color in a text (see [`color_capture`]).
pub fn find_color_hex(text: &str) -> (r: Option<String>)
    ensures
        match r {
            Some(g) => color_capture(text@) == Some(g@),
            None => color_capture(text@) is None,
        },
{
    let cs = chars_of(text);
    let n = cs.len();
    let mut i: usize = 0;
    while n >= 7 && i <= n - 7
        invariant
            i <= n,
            cs@ == text@,
            n == cs@.len(),
            first_color_from(cs@, 0) == first_color_from(cs@, i as int),
        decreases n - i,
    {
        let mut ok = cs[i] == '#';
        let mut k: usize = i + 1;
        while ok && k < i + 7
            invariant
                i + 7 <= n,
                n == cs@.len(),
                i + 1 <= k <= i + 7,
                ok ==> cs@[i as int] == '#',
                ok ==> forall|m: int| i + 1 <= m < k ==> is_hex_char(#[trigger] cs@[m]),
                !ok ==> !color_at(cs@, i as int),
            decreases i + 7 - k,
        {
            if !is_hex_char_exec(cs[k]) {
                ok = false;
            }
            k = k + 1;
        }
        if ok {
            assert(color_at(cs@, i as int));
            let mut g: Vec<char> = Vec::new();
            let mut m: usize = i + 1;
            while m < i + 7
                invariant
                    i + 7 <= n,
                    n == cs@.len(),
                    i + 1 <= m <= i + 7,
                    g@ == cs@.subrange(i + 1, m as int),
                decreases i + 7 - m,
            {
                g.push(cs[m]);
                m = m + 1;
                assert(g@ =~= cs@.subrange(i + 1, m as int));
            }
            return Some(string_of(&g));
        }
        i = i + 1;
    }
    None
}

/// The color of a text: its first `#RRGGBB` (see [`color_capture`]) read as a
/// hexadecimal `u32` (`u32::from_str_radix(.., 16)`): `None` when the text holds no
/// color, `Some(None)` when its digits are no such number.
pub open spec fn color_of(s: Seq<char>) -> Option<Option<int>> {
    match color_capture(s) {
        Some(g) => Some(parse_hex(g)),
        None => None,
    }
}

/// A value that passed its check.
pub enum FieldValue {
    Text(String),
    Color(u32),
}

/// The outcome of checking `value` with `check`.
pub open spec fn checked(check: FieldCheck, value: Seq<char>) -> Result<Result<Seq<char>, int>, &'static str> {
    match check {
        FieldCheck::Any => Ok(Ok(value)),
        FieldCheck::Color => match color_of(value) {
            Some(Some(c)) => Ok(Err(c)),
            Some(None) => Err("Could not parse hex string"),
            None => Err("Not a valid color!"),
        },
        FieldCheck::Url => if url_pattern_matches(value) {
            Ok(Ok(value))
        } else {
            Err("Invalid URL.")
        },
        FieldCheck::Title => if value.contains('%') {
            Ok(Ok(value))
        } else {
            Err("No % symbol in output.")
        },
    }
}

/// The view of a checked value: text, or a color.
pub open spec fn field_view(v: FieldValue) -> Result<Seq<char>, int> {
    match v {
        FieldValue::Text(t) => Ok(t@),
        FieldValue::Color(c) => Err(c as int),
    }
}

/// Finds the first color in a text and reads it (see [`color_of`]).
pub fn find_color(s: &str) -> (r: Option<Option<u32>>)
    ensures
        match r {
            Some(Some(c)) => color_of(s@) == Some(Some(c as int)),
            Some(None) => color_of(s@) == Some(None::<int>),
            None => color_of(s@) is None,
        },
{
    match find_color_hex(s) {
        Some(g) => {
            let digits = chars_of(g.as_str());
            Some(parse_hex_u32(&digits))
        },
        None => None,
    }
}

/// Checks a value entered for a profile field (see [`checked`]).
pub fn check_field(check: FieldCheck, value: String) -> (r: Result<FieldValue, &'static str>)
    ensures
        match checked(check, value@) {
            Ok(v) => r matches Ok(f) && field_view(f) == v,
            Err(e) => r == Err::<FieldValue, &'static str>(e),
        },
{
    match check {
        FieldCheck::Any => Ok(FieldValue::Text(value)),
        FieldCheck::Color => match find_color(value.as_str()) {
            Some(Some(c)) => Ok(FieldValue::Color(c)),
            Some(None) => Err("Could not parse hex string"),
            None => Err("Not a valid color!"),
        },
        FieldCheck::Url => {
            if looks_like_url(value.as_str()) {
                Ok(FieldValue::Text(value))
            } else {
                Err("Invalid URL.")
            }
        },
        FieldCheck::Title => {
            let cs = chars_of(value.as_str());
            let mut i: usize = 0;
            let mut found = false;
            while i < cs.len()
                invariant
                    i <= cs@.len(),
                    cs@ == value@,
                    found == exists|j: int| 0 <= j < i && cs@[j] == '%',
                decreases cs@.len() - i,
            {
                if cs[i] == '%' {
                    found = true;
                }
                i = i + 1;
            }
            if found {
                Ok(FieldValue::Text(value))
            } else {
                Err("No % symbol in output.")
            }
        },
    }
}

/// The answer when a value fails its check.
pub fn invalid_value_text(column: &str, error: &str) -> (s: String)
    ensures
        s@ == "Invalid value for field `"@ + column@ + "`: "@ + error@,
{
    let mut s = String::from_str("Invalid value for field `");
    s.append(column);
    s.append("`: ");
    s.append(error);
    s
}

/// How a stored value is shown: the text, or the color's number.
pub open spec fn value_text(v: Result<Seq<char>, int>) -> Seq<char> {
    match v {
        Ok(t) => t,
        Err(c) => crate::text::decimal(c as nat),
    }
}

/// The answer when a value was stored.
pub fn updated_text(column: &str, value: &FieldValue) -> (s: String)
    ensures
        s@ == "Updated field `"@ + column@ + "` with value `"@ + value_text(field_view(*value)) + "`."@,
{
    let mut s = String::from_str("Updated field `");
    s.append(column);
    s.append("` with value `");
    match value {
        FieldValue::Text(t) => s.append(t.as_str()),
        FieldValue::Color(c) => crate::text::push_decimal(&mut s, *c as u64),
    }
    s.append("`.");
    s
}

/// An option of the profile edit menu: label, value, description and emoji.
pub type EditOption = (&'static str, &'static str, &'static str, &'static str);

/// The options of the profile edit menu that every user gets, in order.
pub const EDIT_OPTIONS: [EditOption; 13] = [
    ("Description", "description", "Edit your bio", "📝"),
    ("Color", "color", "Edit your bio color", "🎨"),
    ("Classes", "classes", "Display your favorite TF2 classes.", "🔫"),
    ("Favorite Map", "favorite-map", "Display your favorite map.", "📄"),
    ("Url", "url", "Set a custom link to redirect to", "🔗"),
    ("Title", "title", "Customize the header of your profile", "🐈"),
    ("Favorite User", "favorite-user", "Choose your favorite user!", "💝"),
    ("Remove Favorite User", "remove-favorite-user", "Remove your favorite user", "💔"),
    ("Image", "image", "Link an image to your profile", "📷"),
    ("Remove Image", "remove-image", "Remove your profile image", "❌"),
    ("Toggle Vote Visibility", "toggle-vote", "Toggle if your profile votes are shown or not.", "🫣"),
    ("Toggle Stats Visibility", "toggle-stats", "Toggle if your steam user stats are shown.", "📈"),
    (
        "Toggle Domination Visibility",
        "toggle-domination",
        "Toggle if your server domination records are shown.",
        "⚔️",
    ),
];

/// The option to link a steam account, offered first to users without one.
pub const LINK_OPTION: EditOption = ("Link steam", "link-steam", "Link your profile to your steam account", "🔗");

/// The option to unlink the steam account, offered last to users with one.
pub const UNLINK_OPTION: EditOption = (
    "Unlink steam",
    "unlink-steam",
    "Disconnects your steam account from your TKGP profile :(",
    "🗑️",
);

/// The options of the profile edit menu: linking first for users without a steam
/// account, unlinking last for users with one.
pub fn edit_menu_options(has_steam: bool) -> (v: Vec<EditOption>)
    ensures
        !has_steam ==> v@ == seq![LINK_OPTION] + EDIT_OPTIONS@,
        has_steam ==> v@ == EDIT_OPTIONS@.push(UNLINK_OPTION),
{
    let mut v: Vec<EditOption> = Vec::new();
    if !has_steam {
        v.push(LINK_OPTION);
    }
    let mut i: usize = 0;
    let start = v.len();
    while i < 13
        invariant
            i <= 13,
            start == (if has_steam { 0int } else { 1int }),
            v@.len() == start + i,
            !has_steam ==> v@[0] == LINK_OPTION,
            forall|j: int| 0 <= j < i ==> #[trigger] v@[start + j] == EDIT_OPTIONS@[j],
        decreases 13 - i,
    {
        v.push(EDIT_OPTIONS[i]);
        i = i + 1;
    }
    assert(EDIT_OPTIONS@.len() == 13);
    if has_steam {
        v.push(UNLINK_OPTION);
        assert forall|j: int| 0 <= j < 14 implies v@[j] == EDIT_OPTIONS@.push(UNLINK_OPTION)[j] by {
            if j < 13 {
                assert(v@[0 + j] == EDIT_OPTIONS@[j]);
            }
        }
        assert(v@ =~= EDIT_OPTIONS@.push(UNLINK_OPTION));
    } else {
        assert forall|j: int| 0 <= j < 14 implies v@[j] == (seq![LINK_OPTION] + EDIT_OPTIONS@)[j] by {
            if j > 0 {
                assert(v@[1 + (j - 1)] == EDIT_OPTIONS@[j - 1]);
            }
        }
        assert(v@ =~= seq![LINK_OPTION] + EDIT_OPTIONS@);
    }
    v
}

/// The form for a new bio.
pub struct DescriptionModal {
    pub description: String,
}

impl DescriptionModal {
    /// The profile column the value goes to.
    pub fn column(&self) -> (c: &'static str)
        ensures
            c@ == "description"@,
    {
        "description"
    }

    /// The entered value, checked (see [`checked`]).
    pub fn value(self) -> (r: Result<FieldValue, &'static str>)
        ensures
            match checked(FieldCheck::Any, self.description@) {
                Ok(v) => r matches Ok(f) && field_view(f) == v,
                Err(e) => r == Err::<FieldValue, &'static str>(e),
            },
    {
        check_field(FieldCheck::Any, self.description)
    }
}

/// The form for the link of the profile's title.
pub struct ProfileURLModal {
    pub url: String,
}

impl ProfileURLModal {
    /// The profile column the value goes to.
    pub fn column(&self) -> (c: &'static str)
        ensures
            c@ == "url"@,
    {
        "url"
    }

    /// The entered value, checked (see [`checked`]).
    pub fn value(self) -> (r: Result<FieldValue, &'static str>)
        ensures
            match checked(FieldCheck::Url, self.url@) {
                Ok(v) => r matches Ok(f) && field_view(f) == v,
                Err(e) => r == Err::<FieldValue, &'static str>(e),
            },
    {
        check_field(FieldCheck::Url, self.url)
    }
}

/// The form for the profile's header; `%` stands for the user's name.
pub struct TitleModal {
    pub title: String,
}

impl TitleModal {
    /// The profile column the value goes to.
    pub fn column(&self) -> (c: &'static str)
        ensures
            c@ == "title"@,
    {
        "title"
    }

    /// The entered value, checked (see [`checked`]).
    pub fn value(self) -> (r: Result<FieldValue, &'static str>)
        ensures
            match checked(FieldCheck::Title, self.title@) {
                Ok(v) => r matches Ok(f) && field_view(f) == v,
                Err(e) => r == Err::<FieldValue, &'static str>(e),
            },
    {
        check_field(FieldCheck::Title, self.title)
    }
}

/// The form for the picture shown in the profile.
pub struct ImageModal {
    pub image_url: String,
}

impl ImageModal {
    /// The profile column the value goes to.
    pub fn column(&self) -> (c: &'static str)
        ensures
            c@ == "image"@,
    {
        "image"
    }

    /// The entered value, checked (see [`checked`]).
    pub fn value(self) -> (r: Result<FieldValue, &'static str>)
        ensures
            match checked(FieldCheck::Url, self.image_url@) {
                Ok(v) => r matches Ok(f) && field_view(f) == v,
                Err(e) => r == Err::<FieldValue, &'static str>(e),
            },
    {
        check_field(FieldCheck::Url, self.image_url)
    }
}

/// The form for the favorite map.
pub struct FavoriteMapModal {
    pub map: String,
}

impl FavoriteMapModal {
    /// The profile column the value goes to.
    pub fn column(&self) -> (c: &'static str)
        ensures
            c@ == "favorite_map"@,
    {
        "favorite_map"
    }

    /// The entered value, checked (see [`checked`]).
    pub fn value(self) -> (r: Result<FieldValue, &'static str>)
        ensures
            match checked(FieldCheck::Any, self.map@) {
                Ok(v) => r matches Ok(f) && field_view(f) == v,
                Err(e) => r == Err::<FieldValue, &'static str>(e),
            },
    {
        check_field(FieldCheck::Any, self.map)
    }
}

/// The form for the bio's color, `#RRGGBB`.
pub struct ColorModal {
    pub color: String,
}

impl ColorModal {
    /// The profile column the value goes to.
    pub fn column(&self) -> (c: &'static str)
        ensures
            c@ == "color"@,
    {
        "color"
    }

    /// The entered value, checked (see [`checked`]).
    pub fn value(self) -> (r: Result<FieldValue, &'static str>)
        ensures
            match checked(FieldCheck::Color, self.color@) {
                Ok(v) => r matches Ok(f) && field_view(f) == v,
                Err(e) => r == Err::<FieldValue, &'static str>(e),
            },
    {
        check_field(FieldCheck::Color, self.color)
    }
}

} // verus!
