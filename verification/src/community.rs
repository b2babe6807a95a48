//! Small chat features: the welcome message, the "hi cat" counter, and the notices
//! of the media cooldown.
use vstd::prelude::*;

use crate::autocomplete::{lowercased, to_lowercase};
use crate::maps::{has_part, text_contains};
use crate::text::{
    decimal, parse_u64, parse_unsigned, push_decimal, push_signed_decimal, signed_decimal, split_on,
    split_text,
};

verus! {

/// The greetings of the welcome message, one picked at random.
pub const INTROS: [&'static str; 13] = [
    "welcome to tiny kitty's girl pound",
    "haiiiii ^_^ hi!! hiiiiii <3 haiiiiii hii :3",
    "gweetings fwom tiny kitty's girl pound",
    "o-omg hii.. >///<",
    "welcome to da girl pound <3",
    "hello girl pounder",
    "hii lol >w<",
    "can we run these dogshit ass pugs",
    "heyyyyyyyyyyy... <3",
    "bounce up and down on it",
    "rtv for puppy pawjob with a twist",
    "!!! meow~<3",
    "hi fag <3",
];

/// The view of an optional text.
pub open spec fn opt_str(e: Option<&str>) -> Option<Seq<char>> {
    match e {
        Some(e) => Some(e@),
        None => None,
    }
}

/// The welcome message: a server emoji (a check mark without one), a mention of the
/// new member, greeting `intro`, and the member count.
pub fn welcome_message(emoji: Option<&str>, member: u64, intro: usize, member_count: u64) -> (s: String)
    requires
        intro < 13,
    ensures
        s@ == (match opt_str(emoji) {
            Some(e) => e,
            None => ":white_check_mark:"@,
        }) + " <@"@ + decimal(member as nat) + "> "@ + INTROS[intro as int]@ + " | total meowmbers: "@
            + decimal(member_count as nat),
{
    let mut s = match emoji {
        Some(e) => e.to_owned(),
        None => String::from_str(":white_check_mark:"),
    };
    s.append(" <@");
    push_decimal(&mut s, member);
    s.append("> ");
    s.append(INTROS[intro]);
    s.append(" | total meowmbers: ");
    push_decimal(&mut s, member_count);
    s
}

/// The member whose "hi cat" messages are counted.
pub const KATELYN_UID: u64 = 712534342445826078;

/// Whether a message counts as a "hi cat": it comes from [`KATELYN_UID`] and,
/// lowercased, holds "hi cat".
pub fn is_hi_cat(author: u64, content: &str) -> (b: bool)
    ensures
        b == (author == KATELYN_UID && has_part(lowercased(content@), "hi cat"@)),
{
    if author != KATELYN_UID {
        return false;
    }
    let lower = to_lowercase(content);
    text_contains(lower.as_str(), "hi cat")
}

/// The answer to a "hi cat": the counter after it.
pub fn hi_cat_reply(count: i64) -> (s: String)
    ensures
        s@ == "\"hi cat\" counter: "@ + signed_decimal(count as int),
{
    let mut s = String::from_str("\"hi cat\" counter: ");
    push_signed_decimal(&mut s, count);
    s
}

/// The notice to a user who posted media too soon: when they may post again
/// (`delete_at`, seconds since the epoch).
pub fn cooldown_notice(user: u64, delete_at: i64) -> (s: String)
    ensures
        s@ == "<@"@ + decimal(user as nat) + "> guh!! >_<... post again <t:"@ + signed_decimal(
            delete_at as int,
        ) + ":R>"@,
{
    let mut s = String::from_str("<@");
    push_decimal(&mut s, user);
    s.append("> guh!! >_<... post again <t:");
    push_signed_decimal(&mut s, delete_at);
    s.append(":R>");
    s
}

/// The names of the last barkers, each followed by a line break.
pub open spec fn name_lines(names: Seq<Seq<char>>) -> Seq<char>
    decreases names.len(),
{
    if names.len() == 0 {
        seq![]
    } else {
        name_lines(names.drop_last()) + names.last() + "\n"@
    }
}

/// The answer to a bark: the last barkers' nicknames (most recent first, as the
/// database gives them), in a code block.
pub fn bark_reply(names: &Vec<String>) -> (s: String)
    ensures
        s@ == "Barking is strictly prohibited. Your ID has been logged.\nLast 15 infractions:```\n"@
            + name_lines(names@.map_values(|n: String| n@)) + "```"@,
{
    let ghost nv = names@.map_values(|n: String| n@);
    let mut list = String::new();
    let mut i: usize = 0;
    proof {
        reveal_strlit("");
    }
    assert(list@ =~= name_lines(nv.take(0)));
    while i < names.len()
        invariant
            i <= names@.len(),
            nv == names@.map_values(|n: String| n@),
            list@ == name_lines(nv.take(i as int)),
        decreases names@.len() - i,
    {
        assert(nv.take(i + 1).drop_last() =~= nv.take(i as int));
        assert(nv[i as int] == names@[i as int]@);
        list.append(names[i].as_str());
        list.append("\n");
        i = i + 1;
    }
    assert(nv.take(names@.len() as int) =~= nv);
    let mut s = String::from_str("Barking is strictly prohibited. Your ID has been logged.\nLast 15 infractions:```\n");
    s.append(list.as_str());
    s.append("```");
    s
}

/// The name of a server's player count channel: its emoji, then the players online
/// out of the maximum.
pub fn player_count_name(emoji: &str, players: usize, max_players: u64) -> (s: String)
    ensures
        s@ == emoji@ + " "@ + decimal(players as nat) + "/"@ + decimal(max_players as nat) + " online"@,
{
    let mut s = emoji.to_owned();
    s.append(" ");
    push_decimal(&mut s, players as u64);
    s.append("/");
    push_decimal(&mut s, max_players);
    s.append(" online");
    s
}

/// The ids of a comma separated list, each read as `str::parse::<u64>` does; `None`
/// when a piece is no such number.
pub open spec fn id_list(text: Seq<char>) -> Option<Seq<u64>> {
    let pieces = split_on(text, ',');
    if forall|i: int| 0 <= i < pieces.len() ==> parse_unsigned(#[trigger] pieces[i], u64::MAX as int) is Some {
        Some(pieces.map_values(|p: Seq<char>| parse_unsigned(p, u64::MAX as int)->0 as u64))
    } else {
        None
    }
}

/// Reads the media channels, a comma separated list of ids (see [`id_list`]).
pub fn parse_id_list(text: &str) -> (r: Option<Vec<u64>>)
    ensures
        match id_list(text@) {
            Some(ids) => r matches Some(v) && v@ == ids,
            None => r is None,
        },
{
    let pieces = split_text(text, ',');
    let ghost pv = pieces@.map_values(|p: String| p@);
    let mut ids: Vec<u64> = Vec::new();
    let mut i: usize = 0;
    while i < pieces.len()
        invariant
            i <= pieces@.len(),
            pv == pieces@.map_values(|p: String| p@),
            pv == split_on(text@, ','),
            ids@.len() == i,
            forall|j: int|
                0 <= j < i ==> parse_unsigned(#[trigger] pv[j], u64::MAX as int) == Some(ids@[j] as int),
        decreases pieces@.len() - i,
    {
        assert(pv[i as int] == pieces@[i as int]@);
        match parse_u64(pieces[i].as_str()) {
            Some(id) => ids.push(id),
            None => {
                assert(!(forall|j: int|
                    0 <= j < pv.len() ==> parse_unsigned(#[trigger] pv[j], u64::MAX as int) is Some));
                return None;
            },
        }
        i = i + 1;
    }
    assert(ids@ =~= pv.map_values(|p: Seq<char>| parse_unsigned(p, u64::MAX as int)->0 as u64));
    Some(ids)
}

/// Whether a message is held to the media cooldown: it was posted in one of the
/// media channels and has attachments or embeds.
pub fn media_check_applies(channels: &Vec<u64>, channel: u64, has_attachments: bool, has_embeds: bool) -> (b: bool)
    ensures
        b == (channels@.contains(channel) && (has_attachments || has_embeds)),
{
    let mut found = false;
    let mut i: usize = 0;
    while i < channels.len()
        invariant
            i <= channels@.len(),
            found == exists|j: int| 0 <= j < i && channels@[j] == channel,
        decreases channels@.len() - i,
    {
        if channels[i] == channel {
            found = true;
        }
        i = i + 1;
    }
    found && (has_attachments || has_embeds)
}

/// The answer to a raffle among the users who reacted to a message: the emoji, how
/// many reacted, and the one picked.
pub open spec fn raffle_text(emoji: Seq<char>, count: nat, chosen: Seq<char>) -> Seq<char> {
    "emoji: "@ + emoji + "\ncount: "@ + decimal(count) + "\nchosen: "@ + chosen
}

/// Picks one of the users who reacted at random and writes the answer (see
/// [`raffle_text`]); which user is picked is left to chance.
pub fn raffle_reply(emoji: &str, names: &Vec<String>) -> (s: String)
    requires
        names@.len() > 0,
    ensures
        exists|i: int| 0 <= i < names@.len() && s@ == raffle_text(emoji@, names@.len(), #[trigger] names@[i]@),
{
    let k = crate::rng::pick_below(names.len());
    let mut s = String::from_str("emoji: ");
    s.append(emoji);
    s.append("\ncount: ");
    push_decimal(&mut s, names.len() as u64);
    s.append("\nchosen: ");
    s.append(names[k].as_str());
    assert(s@ == raffle_text(emoji@, names@.len(), names@[k as int]@));
    s
}

/// A cooldown notice waiting to be deleted: the user and channel it is for, when it
/// is to go (milliseconds since the epoch) and the notice's message id.
#[derive(Debug, Clone, Copy, PartialEq, Eq, Structural)]
pub struct QueuedNotice {
    pub user: u64,
    pub channel: u64,
    pub delete_at: i64,
    pub message: u64,
}

/// The cooldown notices posted and not yet deleted.
pub struct NoticeQueue {
    queue: Vec<QueuedNotice>,
}

/// The notices of a queue that are due at `now`, in order.
pub open spec fn due_notices(s: Seq<QueuedNotice>, now: int) -> Seq<QueuedNotice>
    decreases s.len(),
{
    if s.len() == 0 {
        seq![]
    } else if now - s.last().delete_at > 0 {
        due_notices(s.drop_last(), now).push(s.last())
    } else {
        due_notices(s.drop_last(), now)
    }
}

/// The notices of a queue that are not due at `now`, in order.
pub open spec fn pending_notices(s: Seq<QueuedNotice>, now: int) -> Seq<QueuedNotice>
    decreases s.len(),
{
    if s.len() == 0 {
        seq![]
    } else if now - s.last().delete_at > 0 {
        pending_notices(s.drop_last(), now)
    } else {
        pending_notices(s.drop_last(), now).push(s.last())
    }
}

impl View for NoticeQueue {
    type V = Seq<QueuedNotice>;

    closed spec fn view(&self) -> Seq<QueuedNotice> {
        self.queue@
    }
}

impl NoticeQueue {
    /// No notices.
    pub fn new() -> (q: Self)
        ensures
            q@ == Seq::<QueuedNotice>::empty(),
    {
        NoticeQueue { queue: Vec::new() }
    }

    /// Whether a notice for this user and channel is already up (then no second one is
    /// posted).
    pub fn has_notice(&self, user: u64, channel: u64) -> (b: bool)
        ensures
            b == exists|i: int| 0 <= i < self@.len() && #[trigger] self@[i].user == user && self@[i].channel
                == channel,
    {
        let mut i: usize = 0;
        while i < self.queue.len()
            invariant
                i <= self.queue@.len(),
                forall|j: int| 0 <= j < i ==> !(#[trigger] self.queue@[j].user == user && self.queue@[j].channel
                    == channel),
            decreases self.queue@.len() - i,
        {
            if self.queue[i].user == user && self.queue[i].channel == channel {
                assert(self@[i as int].user == user && self@[i as int].channel == channel);
                return true;
            }
            i = i + 1;
        }
        false
    }

    /// Adds a notice that was posted.
    pub fn push(&mut self, n: QueuedNotice)
        ensures
            final(self)@ == old(self)@.push(n),
    {
        self.queue.push(n);
    }

    /// Takes out the notices that are due at `now` (their time has passed), to be
    /// deleted; the others stay, in order.
    pub fn take_due(&mut self, now: i64) -> (r: Vec<QueuedNotice>)
        ensures
            r@ == due_notices(old(self)@, now as int),
            final(self)@ == pending_notices(old(self)@, now as int),
    {
        let ghost s = self@;
        let mut due: Vec<QueuedNotice> = Vec::new();
        let mut keep: Vec<QueuedNotice> = Vec::new();
        let mut i: usize = 0;
        while i < self.queue.len()
            invariant
                i <= s.len(),
                s == self.queue@,
                due@ == due_notices(s.take(i as int), now as int),
                keep@ == pending_notices(s.take(i as int), now as int),
            decreases s.len() - i,
        {
            let n = self.queue[i];
            assert(s.take(i + 1).drop_last() =~= s.take(i as int));
            if (now as i128) - (n.delete_at as i128) > 0 {
                due.push(n);
            } else {
                keep.push(n);
            }
            i = i + 1;
        }
        assert(s.take(s.len() as int) =~= s);
        self.queue = keep;
        due
    }
}

/// No user has two notices up in one channel.
pub open spec fn notices_unique(q: Seq<QueuedNotice>) -> bool {
    forall|i: int, j: int|
        0 <= i < j < q.len() ==> !(#[trigger] q[i].user == #[trigger] q[j].user && q[i].channel == q[j].channel)
}

proof fn lemma_pending_within(s: Seq<QueuedNotice>, now: int)
    ensures
        forall|n: QueuedNotice| pending_notices(s, now).contains(n) ==> s.contains(n),
        notices_unique(s) ==> notices_unique(pending_notices(s, now)),
    decreases s.len(),
{
    broadcast use vstd::seq_lib::group_seq_properties;

    if s.len() > 0 {
        let t = s.drop_last();
        let x = s.last();
        lemma_pending_within(t, now);
        assert(s =~= t.push(x));
        let p = pending_notices(t, now);
        assert forall|n: QueuedNotice| pending_notices(s, now).contains(n) implies s.contains(n) by {
            if p.contains(n) {
                assert(t.contains(n));
                let k = choose|k: int| 0 <= k < t.len() && t[k] == n;
                assert(s[k] == n);
            } else {
                assert(n == x);
                assert(s[s.len() - 1] == x);
            }
        }
        if notices_unique(s) {
            assert(notices_unique(t)) by {
                assert forall|i: int, j: int| 0 <= i < j < t.len() implies !(#[trigger] t[i].user
                    == #[trigger] t[j].user && t[i].channel == t[j].channel) by {
                    assert(t[i] == s[i] && t[j] == s[j]);
                }
            }
            if !(now - x.delete_at > 0) {
                let r = p.push(x);
                assert forall|i: int, j: int| 0 <= i < j < r.len() implies !(#[trigger] r[i].user
                    == #[trigger] r[j].user && r[i].channel == r[j].channel) by {
                    if j == p.len() {
                        assert(p.contains(r[i]));
                        assert(t.contains(r[i]));
                        let k = choose|k: int| 0 <= k < t.len() && t[k] == r[i];
                        assert(s[k] == r[i] && s[s.len() - 1] == x);
                    } else {
                        assert(r[i] == p[i] && r[j] == p[j]);
                    }
                }
            }
        }
    }
}

/// A user never has two cooldown notices up in one channel: a notice is only posted
/// when there is none for that user and channel, and taking out the due notices
/// keeps the others as they were.
pub proof fn law_one_notice_per_user_and_channel(q: Seq<QueuedNotice>, n: QueuedNotice, now: int)
    requires
        notices_unique(q),
    ensures
        !(exists|i: int| 0 <= i < q.len() && #[trigger] q[i].user == n.user && q[i].channel == n.channel)
            ==> notices_unique(q.push(n)),
        notices_unique(pending_notices(q, now)),
{
    lemma_pending_within(q, now);
    let r = q.push(n);
    if !(exists|i: int| 0 <= i < q.len() && #[trigger] q[i].user == n.user && q[i].channel == n.channel) {
        assert forall|i: int, j: int| 0 <= i < j < r.len() implies !(#[trigger] r[i].user == #[trigger] r[j].user
            && r[i].channel == r[j].channel) by {
            if j == q.len() {
                assert(r[i] == q[i]);
            } else {
                assert(r[i] == q[i] && r[j] == q[j]);
            }
        }
    }
}

} // verus!
