//! Codes that link a discord account to a steam account: the web page hands one out
//! after a steam login, and the user enters it in discord within ten minutes.
use vstd::prelude::*;

use crate::keyed::Keyed;
use crate::rng::pick_below;
use crate::text::push_char;

verus! {

/// The characters of a link code.
pub const CODE_CHARS: [char; 35] = [
    'A', 'B', 'C', 'D', 'E', 'F', 'G', 'H', 'I', 'J', 'K', 'L', 'M', 'N', 'O', 'P', 'Q', 'R', 'S',
    'T', 'U', 'V', 'W', 'X', 'Y', 'Z', '1', '2', '3', '4', '5', '6', '7', '8', '9',
];

/// Milliseconds a code stays valid: ten minutes.
pub const CODE_LIFETIME_MS: i64 = 600_000;

/// Why a code does not link.
#[derive(Debug, Clone, Copy, PartialEq, Eq, Structural)]
pub enum LinkError {
    NotFound,
    Expired,
}

impl LinkError {
    /// The text shown to the user.
    pub fn message(&self) -> (s: &'static str)
        ensures
            s@ == match self {
                LinkError::NotFound => "Code not found"@,
                LinkError::Expired => "Code has expired"@,
            },
    {
        match self {
            LinkError::NotFound => "Code not found",
            LinkError::Expired => "Code has expired",
        }
    }
}

/// Whether a code issued at `issued_at` has expired at `now` (milliseconds): ten
/// minutes have passed, unless that moment is beyond what a time can hold.
pub open spec fn expired(issued_at: i64, now: i64) -> bool {
    issued_at + CODE_LIFETIME_MS <= i64::MAX && issued_at + CODE_LIFETIME_MS < now
}

/// A code is six of [`CODE_CHARS`].
pub open spec fn is_code(s: Seq<char>) -> bool {
    s.len() == 6 && forall|i: int| 0 <= i < 6 ==> CODE_CHARS@.contains(#[trigger] s[i])
}

/// The codes handed out, each with its steam id and when it was issued.
pub struct LinkCodes {
    codes: Keyed<(u64, i64)>,
}

impl View for LinkCodes {
    type V = Map<Seq<char>, (u64, i64)>;

    closed spec fn view(&self) -> Map<Seq<char>, (u64, i64)> {
        self.codes@
    }
}

impl LinkCodes {
    /// The record is well formed.
    pub closed spec fn wf(&self) -> bool {
        self.codes.wf()
    }

    /// No codes.
    pub fn new() -> (c: Self)
        ensures
            c.wf(),
            c@ == Map::<Seq<char>, (u64, i64)>::empty(),
    {
        LinkCodes { codes: Keyed::new() }
    }

    /// Whether a code is in use.
    pub fn contains(&self, code: &str) -> (b: bool)
        requires
            self.wf(),
        ensures
            b == self@.contains_key(code@),
    {
        self.codes.contains_key(code)
    }

    /// Records a code for a steam id, issued at `issued_at`.
    pub fn insert_code(&mut self, code: String, steamid64: u64, issued_at: i64)
        requires
            old(self).wf(),
        ensures
            final(self).wf(),
            final(self)@ == old(self)@.insert(code@, (steamid64, issued_at)),
    {
        self.codes.insert(code, (steamid64, issued_at));
    }

    /// The steam id of a code entered at `now`. An expired code is forgotten.
    pub fn try_link_user(&mut self, code: &str, now: i64) -> (r: Result<u64, LinkError>)
        requires
            old(self).wf(),
        ensures
            final(self).wf(),
            !old(self)@.contains_key(code@) ==> r == Err::<u64, LinkError>(LinkError::NotFound)
                && final(self)@ == old(self)@,
            old(self)@.contains_key(code@) && expired(old(self)@[code@].1, now) ==> r == Err::<
                u64,
                LinkError,
            >(LinkError::Expired) && final(self)@ == old(self)@.remove(code@),
            old(self)@.contains_key(code@) && !expired(old(self)@[code@].1, now) ==> r == Ok::<
                u64,
                LinkError,
            >(old(self)@[code@].0) && final(self)@ == old(self)@,
    {
        match self.codes.get(code) {
            None => Err(LinkError::NotFound),
            Some(entry) => {
                let steamid64 = entry.0;
                let issued_at = entry.1;
                let expires = issued_at.checked_add(CODE_LIFETIME_MS);
                let gone = match expires {
                    Some(e) => e < now,
                    None => false,
                };
                if gone {
                    let _ = self.codes.remove(code);
                    Err(LinkError::Expired)
                } else {
                    Ok(steamid64)
                }
            },
        }
    }
}

/// A random code: six characters of [`CODE_CHARS`], each picked at random.
pub fn random_code() -> (s: String)
    ensures
        is_code(s@),
{
    let mut s = String::new();
    let mut i: usize = 0;
    while i < 6
        invariant
            i <= 6,
            s@.len() == i,
            forall|j: int| 0 <= j < i ==> CODE_CHARS@.contains(#[trigger] s@[j]),
        decreases 6 - i,
    {
        let k = pick_below(35);
        let c = CODE_CHARS[k];
        assert(CODE_CHARS@[k as int] == c);
        push_char(&mut s, c);
        i = i + 1;
    }
    s
}

/// A code entered before it expires gives back the steam id it was issued for, and
/// leaves the codes as they were.
pub proof fn law_fresh_code_links(
    codes: Map<Seq<char>, (u64, i64)>,
    code: Seq<char>,
    steamid64: u64,
    issued_at: i64,
    now: i64,
)
    requires
        now <= issued_at + CODE_LIFETIME_MS,
    ensures
        codes.insert(code, (steamid64, issued_at)).contains_key(code),
        !expired(codes.insert(code, (steamid64, issued_at))[code].1, now),
        codes.insert(code, (steamid64, issued_at))[code].0 == steamid64,
{
}

/// The page that starts the steam login.
pub fn link_url(public_url: &str) -> (s: String)
    ensures
        s@ == public_url@ + "/steam-link"@,
{
    let mut s = public_url.to_owned();
    s.append("/steam-link");
    s
}

/// The prompt to link a steam account: an embed that says where codes come from
/// and links to the login page, a link button to get a code there, and a button to
/// enter it.
pub struct SteamLinkPrompt {
    pub title: &'static str,
    pub url: String,
    /// the link button: its target, label and emoji
    pub get_code: (String, &'static str, &'static str),
    /// the button that asks for the code: its id, label and emoji
    pub enter_code: (&'static str, &'static str, &'static str),
}

/// Builds the prompt to link a steam account, whose login page is `link_url`.
pub fn get_steam_link_content(link_url: &str) -> (p: SteamLinkPrompt)
    ensures
        p.title@ == "Get a code from https://link.fluffycat.gay/steam-link & enter it below."@,
        p.url@ == link_url@,
        p.get_code.0@ == link_url@ && p.get_code.1@ == "Get Code"@ && p.get_code.2@ == "☁️"@,
        p.enter_code.0@ == "steam.link"@ && p.enter_code.1@ == "Enter Code"@ && p.enter_code.2@ == "🔗"@,
{
    SteamLinkPrompt {
        title: "Get a code from https://link.fluffycat.gay/steam-link & enter it below.",
        url: link_url.to_owned(),
        get_code: (link_url.to_owned(), "Get Code", "☁️"),
        enter_code: ("steam.link", "Enter Code", "🔗"),
    }
}

/// The form in which a user enters a link code.
pub struct SteamLinkCodeModal {
    /// the six-character code
    pub code: String,
}

impl SteamLinkCodeModal {
    /// The steam id that the entered code links to at `now` (see
    /// [`LinkCodes::try_link_user`]); an expired code is forgotten.
    pub fn redeem(&self, codes: &mut LinkCodes, now: i64) -> (r: Result<u64, LinkError>)
        requires
            old(codes).wf(),
        ensures
            final(codes).wf(),
            !old(codes)@.contains_key(self.code@) ==> r == Err::<u64, LinkError>(LinkError::NotFound)
                && final(codes)@ == old(codes)@,
            old(codes)@.contains_key(self.code@) && expired(old(codes)@[self.code@].1, now) ==> r == Err::<
                u64,
                LinkError,
            >(LinkError::Expired) && final(codes)@ == old(codes)@.remove(self.code@),
            old(codes)@.contains_key(self.code@) && !expired(old(codes)@[self.code@].1, now) ==> r == Ok::<
                u64,
                LinkError,
            >(old(codes)@[self.code@].0) && final(codes)@ == old(codes)@,
    {
        codes.try_link_user(self.code.as_str(), now)
    }
}

} // verus!
