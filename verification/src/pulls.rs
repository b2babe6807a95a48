//! Catcoin pulls: rewards of four rarities that messages rarely win, and the
//! inventory in which they are kept.
use vstd::prelude::*;

use crate::patterns::{find_pull_desc, find_pull_title, pull_desc_capture, pull_title_captures};
use crate::rng::{roll_percent, pick_below};
use crate::text::{decimal, parse_i32, parse_signed, push_decimal, push_signed_decimal, signed_decimal};

verus! {

/// How rare a reward is.
#[derive(Debug, Clone, Copy, PartialEq, Eq, Structural)]
pub enum Rarity {
    Common,
    Rare,
    Fluffy,
    Peak,
}

/// The rarity a name stands for, if any.
pub open spec fn rarity_named(s: Seq<char>) -> Option<Rarity> {
    if s == "Common"@ {
        Some(Rarity::Common)
    } else if s == "Rare"@ {
        Some(Rarity::Rare)
    } else if s == "Fluffy"@ {
        Some(Rarity::Fluffy)
    } else if s == "Peak"@ {
        Some(Rarity::Peak)
    } else {
        None
    }
}

/// The rarity of a roll from 0 to 100.
pub open spec fn rarity_of_roll(roll: int) -> Rarity {
    if roll <= 68 {
        Rarity::Common
    } else if roll <= 94 {
        Rarity::Rare
    } else if roll <= 99 {
        Rarity::Fluffy
    } else {
        Rarity::Peak
    }
}

impl Rarity {
    /// The name of the rarity.
    pub open spec fn name(self) -> Seq<char> {
        match self {
            Rarity::Common => "Common"@,
            Rarity::Rare => "Rare"@,
            Rarity::Fluffy => "Fluffy"@,
            Rarity::Peak => "Peak"@,
        }
    }

    /// The name of the rarity.
    pub fn to_string(&self) -> (s: &'static str)
        ensures
            s@ == self.name(),
    {
        match self {
            Rarity::Common => "Common",
            Rarity::Rare => "Rare",
            Rarity::Fluffy => "Fluffy",
            Rarity::Peak => "Peak",
        }
    }

    /// The rarity a name stands for, if any.
    pub fn parse(s: &str) -> (r: Option<Rarity>)
        ensures
            r == rarity_named(s@),
    {
        if crate::text::text_eq(s, "Common") {
            Some(Rarity::Common)
        } else if crate::text::text_eq(s, "Rare") {
            Some(Rarity::Rare)
        } else if crate::text::text_eq(s, "Fluffy") {
            Some(Rarity::Fluffy)
        } else if crate::text::text_eq(s, "Peak") {
            Some(Rarity::Peak)
        } else {
            None
        }
    }

    /// The rarity of a name, which must be one of the four.
    pub fn from_str(s: &str) -> (r: Rarity)
        requires
            rarity_named(s@) is Some,
        ensures
            Some(r) == rarity_named(s@),
    {
        Rarity::parse(s).unwrap()
    }

    /// The rarity of a roll from 0 to 100: 69 in 101 common, 26 rare, 5 fluffy and
    /// 1 peak.
    pub fn from_roll(roll: u8) -> (r: Rarity)
        requires
            roll <= 100,
        ensures
            r == rarity_of_roll(roll as int),
    {
        if roll <= 68 {
            Rarity::Common
        } else if roll <= 94 {
            Rarity::Rare
        } else if roll <= 99 {
            Rarity::Fluffy
        } else {
            Rarity::Peak
        }
    }

    /// Picks a rarity at random (see [`Rarity::from_roll`]).
    pub fn pick() -> (r: Rarity)
        ensures
            exists|roll: int| 0 <= roll <= 100 && r == #[trigger] rarity_of_roll(roll),
    {
        let roll = roll_percent();
        let r = Rarity::from_roll(roll);
        assert(0 <= roll as int <= 100 && r == rarity_of_roll(roll as int));
        r
    }

    /// The color of the rarity, as red, green and blue.
    pub fn color(&self) -> (c: (u8, u8, u8))
        ensures
            c == match self {
                Rarity::Common => (205u8, 127u8, 50u8),
                Rarity::Rare => (192u8, 192u8, 192u8),
                Rarity::Fluffy => (255u8, 215u8, 0u8),
                Rarity::Peak => (233u8, 138u8, 153u8),
            },
    {
        match self {
            Rarity::Common => (205, 127, 50),
            Rarity::Rare => (192, 192, 192),
            Rarity::Fluffy => (255, 215, 0),
            Rarity::Peak => (233, 138, 153),
        }
    }
}

/// A reward that can be pulled.
#[derive(Debug, Clone)]
pub struct Reward {
    pub id: i32,
    pub name: String,
    pub file: String,
    pub rarity: Rarity,
}

/// The positions of the rewards of a rarity, in order.
pub open spec fn of_rarity(drops: Seq<Reward>, rarity: Rarity) -> Seq<int>
    decreases drops.len(),
{
    if drops.len() == 0 {
        seq![]
    } else if drops.last().rarity == rarity {
        of_rarity(drops.drop_last(), rarity).push(drops.len() - 1)
    } else {
        of_rarity(drops.drop_last(), rarity)
    }
}

/// Picks one of the rewards of `rarity` at random, by its position; `None` when
/// there are none.
pub fn pick_reward(drops: &Vec<Reward>, rarity: Rarity) -> (r: Option<usize>)
    ensures
        of_rarity(drops@, rarity).len() == 0 <==> r is None,
        r matches Some(i) ==> i < drops@.len() && drops@[i as int].rarity == rarity,
{
    let mut matching: Vec<usize> = Vec::new();
    let mut i: usize = 0;
    while i < drops.len()
        invariant
            i <= drops@.len(),
            matching@.len() == of_rarity(drops@.take(i as int), rarity).len(),
            forall|j: int|
                0 <= j < matching@.len() ==> (#[trigger] matching@[j]) < i && drops@[matching@[j] as int].rarity
                    == rarity,
        decreases drops@.len() - i,
    {
        assert(drops@.take(i + 1).drop_last() =~= drops@.take(i as int));
        if drops[i].rarity == rarity {
            matching.push(i);
        }
        i = i + 1;
    }
    assert(drops@.take(drops@.len() as int) =~= drops@);
    if matching.len() == 0 {
        None
    } else {
        let k = pick_below(matching.len());
        Some(matching[k])
    }
}

/// The title of the message announcing a pull.
pub open spec fn pull_title(rarity: Rarity, name: Seq<char>, number: int) -> Seq<char> {
    ":bangbang: "@ + rarity.name() + " Pull: "@ + name + " #"@ + signed_decimal(number) + " :sparkles:"@
}

/// Writes the title of the message announcing a pull.
pub fn pull_title_text(rarity: Rarity, name: &str, number: i32) -> (s: String)
    ensures
        s@ == pull_title(rarity, name@, number as int),
{
    let mut s = String::from_str(":bangbang: ");
    s.append(rarity.to_string());
    s.append(" Pull: ");
    s.append(name);
    s.append(" #");
    push_signed_decimal(&mut s, number as i64);
    s.append(" :sparkles:");
    s
}

/// Writes the description of the message announcing a pull.
pub fn pull_description(coin: &str, catcoin: u64) -> (s: String)
    ensures
        s@ == coin@ + " **+"@ + decimal(catcoin as nat) + "**"@,
{
    let mut s = coin.to_owned();
    s.append(" **+");
    push_decimal(&mut s, catcoin);
    s.append("**");
    s
}

/// A pull as read back from a message announcing it.
pub struct CatcoinPullMessageData {
    pub uid: u64,
    pub name: String,
    pub rarity: Rarity,
    pub number: i32,
    pub catcoin: i32,
    /// seconds since the epoch
    pub created_at: i64,
}

/// Why a message is no pull announcement.
#[derive(Debug, Clone, Copy, PartialEq, Eq, Structural)]
pub enum PullParseError {
    NoEmbed,
    NotReplying,
    NoTitle,
    NoTitleMatch,
    BadNumber,
    NoDesc,
    NoDescMatch,
    BadCatcoin,
}

/// What is read from a message: its first embed (title and description, each
/// maybe missing), the author of the message it replies to, and when it was sent.
pub open spec fn pull_read(
    embed: Option<(Option<Seq<char>>, Option<Seq<char>>)>,
    replied_to: Option<u64>,
) -> Result<(Rarity, Seq<char>, int, int), PullParseError> {
    match embed {
        None => Err(PullParseError::NoEmbed),
        Some((title, desc)) => match replied_to {
            None => Err(PullParseError::NotReplying),
            Some(_) => match title {
                None => Err(PullParseError::NoTitle),
                Some(t) => match pull_title_captures(t) {
                    None => Err(PullParseError::NoTitleMatch),
                    Some((r, name, num)) => match parse_signed(num, i32::MIN as int, i32::MAX as int) {
                        None => Err(PullParseError::BadNumber),
                        Some(n) => match desc {
                            None => Err(PullParseError::NoDesc),
                            Some(d) => match pull_desc_capture(d) {
                                None => Err(PullParseError::NoDescMatch),
                                Some(c) => match parse_signed(c, i32::MIN as int, i32::MAX as int) {
                                    None => Err(PullParseError::BadCatcoin),
                                    Some(coin) => Ok((rarity_named(r)->0, name, n, coin)),
                                },
                            },
                        },
                    },
                },
            },
        },
    }
}

/// The rarity named in a message's title is one of the four.
pub open spec fn title_rarity_known(embed: Option<(Option<Seq<char>>, Option<Seq<char>>)>) -> bool {
    embed matches Some((Some(t), _)) && pull_title_captures(t) matches Some(c) ==> rarity_named(c.0) is Some
}

/// The view of the embed handed to [`CatcoinPullMessageData::from_message`].
pub open spec fn embed_view(embed: Option<(Option<String>, Option<String>)>) -> Option<(Option<Seq<char>>, Option<Seq<char>>)> {
    match embed {
        None => None,
        Some((t, d)) => Some((
            match t {
                Some(t) => Some(t@),
                None => None,
            },
            match d {
                Some(d) => Some(d@),
                None => None,
            },
        )),
    }
}

impl CatcoinPullMessageData {
    /// Reads a pull back from the message that announced it (see [`pull_read`]).
    pub fn from_message(
        embed: Option<(Option<String>, Option<String>)>,
        replied_to: Option<u64>,
        created_at: i64,
    ) -> (r: Result<Self, PullParseError>)
        requires
            title_rarity_known(embed_view(embed)),
        ensures
            match pull_read(embed_view(embed), replied_to) {
                Err(e) => r == Err::<Self, PullParseError>(e),
                Ok((rarity, name, n, coin)) => r matches Ok(d) && d.uid == replied_to->0 && d.rarity
                    == rarity && d.name@ == name && d.number == n && d.catcoin == coin && d.created_at
                    == created_at,
            },
    {
        let (title, desc) = match embed {
            None => {
                return Err(PullParseError::NoEmbed);
            },
            Some(e) => e,
        };
        let uid = match replied_to {
            None => {
                return Err(PullParseError::NotReplying);
            },
            Some(u) => u,
        };
        let title = match title {
            None => {
                return Err(PullParseError::NoTitle);
            },
            Some(t) => t,
        };
        let (r, name, num) = match find_pull_title(title.as_str()) {
            None => {
                return Err(PullParseError::NoTitleMatch);
            },
            Some(c) => c,
        };
        let rarity = Rarity::from_str(r.as_str());
        let number = match parse_i32(num.as_str()) {
            None => {
                return Err(PullParseError::BadNumber);
            },
            Some(n) => n,
        };
        let desc = match desc {
            None => {
                return Err(PullParseError::NoDesc);
            },
            Some(d) => d,
        };
        let c = match find_pull_desc(desc.as_str()) {
            None => {
                return Err(PullParseError::NoDescMatch);
            },
            Some(c) => c,
        };
        let catcoin = match parse_i32(c.as_str()) {
            None => {
                return Err(PullParseError::BadCatcoin);
            },
            Some(n) => n,
        };
        Ok(CatcoinPullMessageData { uid, name, rarity, number, catcoin, created_at })
    }
}

/// A pull in a user's inventory.
#[derive(Debug, Clone)]
pub struct CatcoinPull {
    pub id: i32,
    pub uid: u64,
    pub reward: Reward,
    pub number: i32,
    pub catcoin: i32,
    /// seconds since the epoch
    pub created_at: i64,
    /// seconds since the epoch
    pub updated_at: i64,
}

/// Pulls shown on one page of an inventory.
pub const PAGE_SIZE: usize = 10;

/// One page of a user's inventory: up to ten pulls, and the first pull of the next
/// page when there is one.
pub struct PaginatedInventory {
    pulls: Vec<CatcoinPull>,
    uid: u64,
    last: Option<CatcoinPull>,
}

/// The line of a pull in the inventory.
pub open spec fn pull_line(p: CatcoinPull, coin: Seq<char>) -> Seq<char> {
    "(**+"@ + signed_decimal(p.catcoin as int) + "** "@ + coin + ") **"@ + p.reward.rarity.name()
        + "** "@ + p.reward.name@ + " `#"@ + signed_decimal(p.number as int) + "` | <t:"@
        + signed_decimal(p.created_at as int) + ":R>"@
}

/// The lines of the pulls of a page, separated by line breaks.
pub open spec fn pull_lines(ps: Seq<CatcoinPull>, coin: Seq<char>) -> Seq<char>
    decreases ps.len(),
{
    if ps.len() == 0 {
        seq![]
    } else if ps.len() == 1 {
        pull_line(ps[0], coin)
    } else {
        pull_lines(ps.drop_last(), coin) + "\n"@ + pull_line(ps.last(), coin)
    }
}

impl PaginatedInventory {
    /// The page made of the rows of one inventory query (which asks for eleven): the
    /// first ten are shown, and an eleventh means there is a next page.
    pub fn from_rows(uid: u64, rows: Vec<CatcoinPull>) -> (p: Self)
        ensures
            p.shown() == rows@.take(if rows@.len() < 10 { rows@.len() as int } else { 10 }),
            p.uid() == uid,
            p.has_next_page() == (rows@.len() > 10),
            rows@.len() > 10 ==> p.last_pull() == Some(rows@[10]),
    {
        let mut rows = rows;
        let ghost all = rows@;
        let last = if rows.len() > 10 {
            let l = rows.remove(10);
            assert(rows@.take(10) =~= all.take(10));
            Some(l)
        } else {
            None
        };
        rows.truncate(10);
        assert(rows@ =~= all.take(if all.len() < 10 { all.len() as int } else { 10 }));
        PaginatedInventory { pulls: rows, uid, last }
    }

    /// The pulls shown on the page, in order.
    pub closed spec fn shown(&self) -> Seq<CatcoinPull> {
        self.pulls@
    }

    /// The pulls shown on the page, in order.
    pub fn pulls(&self) -> (v: &Vec<CatcoinPull>)
        ensures
            v@ == self.shown(),
    {
        &self.pulls
    }

    /// The user whose inventory this is.
    pub closed spec fn uid(&self) -> u64 {
        self.uid
    }

    /// The first pull of the next page, if any.
    pub closed spec fn last_pull(&self) -> Option<CatcoinPull> {
        self.last
    }

    /// There is a next page.
    pub open spec fn has_next_page(&self) -> bool {
        self.last_pull() is Some
    }

    /// Whether there is a next page.
    pub fn has_next(&self) -> (b: bool)
        ensures
            b == self.has_next_page(),
    {
        self.last.is_some()
    }

    /// The user whose inventory this is.
    pub fn user(&self) -> (u: u64)
        ensures
            u == self.uid(),
    {
        self.uid
    }

    /// Where the next page starts: the rarity and id of its first pull.
    pub fn next_key(&self) -> (r: Option<(&'static str, i32)>)
        ensures
            match self.last_pull() {
                Some(p) => r matches Some(k) && k.0@ == p.reward.rarity.name() && k.1 == p.id,
                None => r is None,
            },
    {
        match &self.last {
            Some(p) => Some((p.reward.rarity.to_string(), p.id)),
            None => None,
        }
    }

    /// The text of the page: one line per pull.
    pub fn description(&self, coin: &str) -> (s: String)
        ensures
            s@ == pull_lines(self.shown(), coin@),
    {
        let mut s = String::new();
        let mut i: usize = 0;
        while i < self.pulls.len()
            invariant
                i <= self.pulls@.len(),
                s@ == pull_lines(self.pulls@.take(i as int), coin@),
            decreases self.pulls@.len() - i,
        {
            let p = &self.pulls[i];
            assert(self.pulls@.take(i + 1).drop_last() =~= self.pulls@.take(i as int));
            let mut line = String::from_str("(**+");
            push_signed_decimal(&mut line, p.catcoin as i64);
            line.append("** ");
            line.append(coin);
            line.append(") **");
            line.append(p.reward.rarity.to_string());
            line.append("** ");
            line.append(p.reward.name.as_str());
            line.append(" `#");
            push_signed_decimal(&mut line, p.number as i64);
            line.append("` | <t:");
            push_signed_decimal(&mut line, p.created_at);
            line.append(":R>");
            assert(line@ =~= pull_line(self.pulls@[i as int], coin@));
            if i > 0 {
                s.append("\n");
            }
            s.append(line.as_str());
            i = i + 1;
            proof {
                reveal_strlit("");
            }
            assert(s@ =~= pull_lines(self.pulls@.take(i as int), coin@));
        }
        assert(self.pulls@.take(self.pulls@.len() as int) =~= self.pulls@);
        s
    }
}

/// Browses the pages of an inventory; pages are fetched as they are first shown.
pub struct InventoryPager {
    uuid: String,
    pages: Vec<PaginatedInventory>,
    page: usize,
}

/// The buttons under an inventory page: back (on all but the first page), forward
/// (when there is a next page) and close, each as its id and emoji.
pub open spec fn pager_buttons(uuid: Seq<char>, page: nat, has_next: bool) -> Seq<(Seq<char>, Seq<char>)> {
    (if page > 0 {
        seq![(uuid + "-prev"@, "⬅️"@)]
    } else {
        seq![]
    }) + (if has_next {
        seq![(uuid + "-next"@, "➡️"@)]
    } else {
        seq![]
    }) + seq![(uuid + "-close"@, "❌"@)]
}

impl InventoryPager {
    /// A pager showing the first page.
    pub fn new(uuid: &str, first: PaginatedInventory) -> (p: Self)
        ensures
            p.page() == 0,
            p.page_count() == 1,
            p.uuid()@ == uuid@,
    {
        let mut pages = Vec::new();
        pages.push(first);
        InventoryPager { uuid: uuid.to_owned(), pages, page: 0 }
    }

    /// The id that the pager's buttons start with.
    pub closed spec fn uuid(&self) -> String {
        self.uuid
    }

    /// The page shown, from zero.
    pub closed spec fn page(&self) -> nat {
        self.page as nat
    }

    /// The number of pages fetched.
    pub closed spec fn page_count(&self) -> nat {
        self.pages@.len()
    }

    /// Whether fetched page `i` has a next page.
    pub closed spec fn page_has_next(&self, i: int) -> bool {
        self.pages@[i].has_next_page()
    }

    /// The page shown is one that was fetched.
    pub closed spec fn wf(&self) -> bool {
        self.page < self.pages.len()
    }

    /// The page shown.
    pub fn current(&self) -> (p: &PaginatedInventory)
        requires
            self.wf(),
        ensures
            p.has_next_page() == self.page_has_next(self.page() as int),
    {
        &self.pages[self.page]
    }

    /// The footer of the page shown: its number, from one.
    pub fn footer(&self) -> (s: String)
        requires
            self.wf(),
        ensures
            s@ == "Page "@ + decimal(self.page() + 1),
    {
        let mut s = String::from_str("Page ");
        push_decimal(&mut s, self.page as u64 + 1);
        s
    }

    /// The buttons under the page shown (see [`pager_buttons`]).
    pub fn buttons(&self) -> (v: Vec<(String, &'static str)>)
        requires
            self.wf(),
        ensures
            v@.map_values(|b: (String, &'static str)| (b.0@, b.1@)) == pager_buttons(
                self.uuid()@,
                self.page(),
                self.page_has_next(self.page() as int),
            ),
    {
        let mut v: Vec<(String, &'static str)> = Vec::new();
        if self.page > 0 {
            let mut id = self.uuid.clone();
            id.append("-prev");
            v.push((id, "⬅️"));
        }
        if self.pages[self.page].has_next() {
            let mut id = self.uuid.clone();
            id.append("-next");
            v.push((id, "➡️"));
        }
        let mut id = self.uuid.clone();
        id.append("-close");
        v.push((id, "❌"));
        assert(v@.map_values(|b: (String, &'static str)| (b.0@, b.1@)) =~= pager_buttons(
            self.uuid()@,
            self.page(),
            self.page_has_next(self.page() as int),
        ));
        v
    }

    /// Goes back one page.
    pub fn prev(&mut self)
        requires
            old(self).wf(),
            old(self).page() > 0,
        ensures
            final(self).wf(),
            final(self).page() == old(self).page() - 1,
            final(self).page_count() == old(self).page_count(),
            final(self).uuid() == old(self).uuid(),
            forall|i: int| #[trigger] final(self).page_has_next(i) == old(self).page_has_next(i),
    {
        self.page = self.page - 1;
    }

    /// Whether going forward needs the next page to be fetched first.
    pub fn needs_fetch(&self) -> (b: bool)
        requires
            self.wf(),
        ensures
            b == (self.page() + 1 >= self.page_count()),
    {
        self.page >= self.pages.len() - 1
    }

    /// Adds the page fetched after the last one.
    pub fn push_page(&mut self, next: PaginatedInventory)
        requires
            old(self).wf(),
        ensures
            final(self).wf(),
            final(self).page() == old(self).page(),
            final(self).page_count() == old(self).page_count() + 1,
            final(self).uuid() == old(self).uuid(),
            final(self).page_has_next(old(self).page_count() as int) == next.has_next_page(),
            forall|i: int|
                0 <= i < old(self).page_count() ==> #[trigger] final(self).page_has_next(i)
                    == old(self).page_has_next(i),
    {
        self.pages.push(next);
    }

    /// Goes forward one page, which has been fetched.
    pub fn next(&mut self)
        requires
            old(self).wf(),
            old(self).page() + 1 < old(self).page_count(),
        ensures
            final(self).wf(),
            final(self).page() == old(self).page() + 1,
            final(self).page_count() == old(self).page_count(),
            final(self).uuid() == old(self).uuid(),
            forall|i: int| #[trigger] final(self).page_has_next(i) == old(self).page_has_next(i),
    {
        self.page = self.page + 1;
    }
}

} // verus!
