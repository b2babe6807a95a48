//! What a poker lobby does with each button press and with the passing of time.
use vstd::prelude::*;

use crate::cards::Card;
use crate::emoji::EmojiTable;
use crate::poker::{
    contains_none,
    has_card_emojis, hand_text_with_rank, is_card_menu, mention, JOIN_WINDOW_SECONDS, texts, timeout_text, CardSelectMenu,
    LobbyView, Player, PokerLobby, LOBBY_FULL, SELECTION_SECONDS,
};
use crate::text::{decimal, push_decimal};

verus! {

/// The answer to a player who cannot afford the wager.
pub const BROKE: &'static str = "not today brokie";

/// The answer to someone who does not play in the lobby.
pub const NOT_PLAYING: &'static str = "nope not u!!";

/// The answer to a player who looks at their hand before it is dealt.
pub const NOT_DEALT: &'static str = "hands haven't been dealt yet, please try again";

/// The answer to a player who picks a second time.
pub const ALREADY_PICKED: &'static str = "u already picked!";

/// The answer to a pick that did not come from the card menu.
pub const BAD_SELECTION: &'static str = "Invalid selection kind.";

/// A button press under a lobby message.
pub enum LobbyInput {
    /// Join; `balance` is the player's catcoin.
    Join { user: Player, balance: i64 },
    /// Look at one's hand.
    View { user: u64 },
    /// Pick the cards to redraw; `values` is `None` when the interaction was not a
    /// pick from the card menu.
    Select { user: u64, values: Option<Vec<String>> },
}

/// What to answer a button press with.
pub enum LobbyReply {
    /// Answer privately with this text; nothing changed.
    Refuse(&'static str),
    /// Both seats are taken: take both wagers, then start the round.
    TakeWagers,
    /// Refresh the lobby message and acknowledge.
    Refresh,
    /// Show the player their hand and the redraw menu, privately.
    ShowHand { content: String, menu: CardSelectMenu },
    /// The pick was applied: acknowledge (no content) or show the content privately,
    /// then refresh the lobby message; `finished` once both players have picked.
    Picked { content: Option<String>, finished: bool },
}

/// What follows the taking of both wagers.
#[derive(Debug, Clone, Copy, PartialEq, Eq)]
pub enum WagerStep {
    /// Both paid: the round has started (hands dealt, selection time running).
    Started,
    /// A player could not pay after all: nobody is charged, the notice about
    /// `cheater` is sent (see [`cheater_notice`]) and the game message is deleted.
    Abort { cheater: u64 },
}

/// What the passing of time does to a lobby.
#[derive(Debug, Clone, Copy, PartialEq, Eq, Structural)]
pub enum LobbyTick {
    /// Nothing happens.
    Wait,
    /// The selection time ran out: everyone has picked; refresh and settle.
    Finish,
    /// Nobody joined in time: abort the game.
    Abandon,
}

/// The seat of a user in the lobby.
pub open spec fn seat_of(v: LobbyView, user: u64) -> Option<u8> {
    if v.player1 == Some(user) {
        Some(1u8)
    } else if v.player2 == Some(user) {
        Some(2u8)
    } else {
        None
    }
}

/// The hand of seat `n`.
pub open spec fn hand_of(v: LobbyView, n: u8) -> Option<Seq<Card>> {
    if n == 1 {
        v.hand1
    } else if n == 2 {
        v.hand2
    } else {
        None
    }
}

/// Whether seat `n` has picked.
pub open spec fn picked(v: LobbyView, n: u8) -> bool {
    if n == 1 {
        v.selected1
    } else if n == 2 {
        v.selected2
    } else {
        false
    }
}

/// The table has both emoji halves of every card.
pub open spec fn has_deck_emojis(t: Map<Seq<char>, Seq<char>>) -> bool {
    forall|c: Card|
        #![trigger c.rank.emoji_key(c.suit.red())]
        t.contains_key(c.rank.emoji_key(c.suit.red())) && t.contains_key(c.suit.emoji_key())
}

/// The lobby after a pick from seat `n`: the pick is applied, and a seat that still
/// holds no hand gets one dealt.
pub open spec fn after_pick(v: LobbyView, n: u8, sel: Seq<Seq<char>>) -> LobbyView {
    let mid = v.after_selection(n, sel);
    if hand_of(mid, n) is Some {
        mid
    } else {
        mid.after_deal()
    }
}

/// A pick would find no hand to show: the seat holds none and none can be dealt.
pub open spec fn pick_finds_no_hand(v: LobbyView, user: u64, values: Option<Seq<Seq<char>>>) -> bool {
    &&& seat_of(v, user) matches Some(n)
    &&& !picked(v, n)
    &&& values is Some
    &&& hand_of(v, n) is None
    &&& !(v.ready() && v.deck.len() >= 10)
}

/// The texts of an optional list of strings.
pub open spec fn opt_texts(values: Option<Vec<String>>) -> Option<Seq<Seq<char>>> {
    match values {
        Some(v) => Some(texts(v@)),
        None => None,
    }
}

proof fn lemma_hand_emojis(t: Map<Seq<char>, Seq<char>>, cards: Seq<Card>)
    requires
        has_deck_emojis(t),
    ensures
        has_card_emojis(t, cards),
{
    assert forall|i: int| 0 <= i < cards.len() implies t.contains_key(
        #[trigger] cards[i].rank.emoji_key(cards[i].suit.red()),
    ) && t.contains_key(cards[i].suit.emoji_key()) by {
        let c = cards[i];
        assert(t.contains_key(c.rank.emoji_key(c.suit.red())));
    }
}

impl PokerLobby {
    /// Answers a button press under the lobby message.
    pub fn handle_input(&mut self, table: &EmojiTable, input: LobbyInput) -> (r: LobbyReply)
        requires
            has_deck_emojis(table@),
            input matches LobbyInput::Select { user, values } ==> !pick_finds_no_hand(
                old(self)@,
                user,
                opt_texts(values),
            ),
        ensures
            final(self).uuid() == old(self).uuid(),
            match input {
                LobbyInput::Join { user, balance } => if balance < old(self)@.wager as i64 {
                    r == LobbyReply::Refuse(BROKE) && final(self)@ == old(self)@
                } else if old(self)@.ready() {
                    r == LobbyReply::Refuse(LOBBY_FULL) && final(self)@ == old(self)@
                } else {
                    &&& final(self)@ == if old(self)@.player1 is None {
                        old(self)@.seat1(user.id)
                    } else {
                        old(self)@.seat2(user.id)
                    }
                    &&& r == if final(self)@.ready() {
                        LobbyReply::TakeWagers
                    } else {
                        LobbyReply::Refresh
                    }
                },
                LobbyInput::View { user } => {
                    &&& final(self)@ == old(self)@
                    &&& match seat_of(old(self)@, user) {
                        None => r == LobbyReply::Refuse(NOT_PLAYING),
                        Some(n) => match hand_of(old(self)@, n) {
                            None => r == LobbyReply::Refuse(NOT_DEALT),
                            Some(cards) => r matches LobbyReply::ShowHand { content, menu }
                                && content@ == hand_text_with_rank(table@, cards)
                                + "\n\nselection time ends "@ + timeout_text(
                                old(self)@.draw_timeout,
                            ) && is_card_menu(menu, old(self).uuid()@, cards),
                        },
                    }
                },
                LobbyInput::Select { user, values } => match seat_of(old(self)@, user) {
                    None => r == LobbyReply::Refuse(NOT_PLAYING) && final(self)@ == old(self)@,
                    Some(n) => if picked(old(self)@, n) {
                        r == LobbyReply::Refuse(ALREADY_PICKED) && final(self)@ == old(self)@
                    } else {
                        match values {
                            None => r == LobbyReply::Refuse(BAD_SELECTION) && final(self)@
                                == old(self)@,
                            Some(vals) => {
                                &&& final(self)@ == after_pick(old(self)@, n, texts(vals@))
                                &&& r matches LobbyReply::Picked { content, finished }
                                &&& finished == (final(self)@.ready()
                                    && final(self)@.selections_done())
                                &&& if texts(vals@).contains("none"@) {
                                    content is None
                                } else {
                                    content matches Some(c) && c@ == "you redrew "@ + decimal(
                                        vals@.len(),
                                    ) + " card(s).\n"@ + hand_text_with_rank(
                                        table@,
                                        hand_of(final(self)@, n)->0,
                                    )
                                }
                            },
                        }
                    },
                },
            },
    {
        match input {
            LobbyInput::Join { user, balance } => {
                if balance < self.wager() as i64 {
                    LobbyReply::Refuse(BROKE)
                } else {
                    let reg = self.try_register_player(user);
                    match reg {
                        Err(e) => LobbyReply::Refuse(e),
                        Ok(()) => {
                            if self.is_ready() {
                                LobbyReply::TakeWagers
                            } else {
                                LobbyReply::Refresh
                            }
                        },
                    }
                }
            },
            LobbyInput::View { user } => {
                let n = match self.get_player_num(user) {
                    Some(n) => n,
                    None => {
                        return LobbyReply::Refuse(NOT_PLAYING);
                    },
                };
                let hand = match self.get_hand(n) {
                    Some(h) => *h,
                    None => {
                        return LobbyReply::Refuse(NOT_DEALT);
                    },
                };
                proof {
                    lemma_hand_emojis(table@, hand.cards@);
                }
                let mut content = self.format_hand_with_rank(table, &hand);
                content.append("\n\nselection time ends ");
                let ts = self.format_timeout_timestamp();
                content.append(ts.as_str());
                let menu = self.get_card_select_menu(n);
                LobbyReply::ShowHand { content, menu }
            },
            LobbyInput::Select { user, values } => {
                let n = match self.get_player_num(user) {
                    Some(n) => n,
                    None => {
                        return LobbyReply::Refuse(NOT_PLAYING);
                    },
                };
                if self.has_selected(n) {
                    return LobbyReply::Refuse(ALREADY_PICKED);
                }
                let vals = match values {
                    Some(v) => v,
                    None => {
                        return LobbyReply::Refuse(BAD_SELECTION);
                    },
                };
                let ghost before = self@;
                self.process_card_selection(n, vals.as_slice());
                let hand = self.get_hand_or_deal(n);
                proof {
                    lemma_hand_emojis(table@, hand.cards@);
                }
                let finished = self.is_ready() && self.are_selections_done();
                if contains_none(vals.as_slice()) {
                    LobbyReply::Picked { content: None, finished }
                } else {
                    let mut c = String::from_str("you redrew ");
                    push_decimal(&mut c, vals.len() as u64);
                    c.append(" card(s).\n");
                    let h = self.format_hand_with_rank(table, &hand);
                    c.append(h.as_str());
                    LobbyReply::Picked { content: Some(c), finished }
                }
            },
        }
    }
}

/// The join window of a lobby whose message was sent at `created` has closed at `now`.
pub open spec fn join_window_closed(created: i64, now: u64) -> bool {
    created + JOIN_WINDOW_SECONDS < now
}

/// Whether the join window of a lobby whose message was sent at `created` has closed
/// at `now` (both in seconds since the epoch).
pub fn join_window_expired(created: i64, now: u64) -> (b: bool)
    ensures
        b == join_window_closed(created, now),
{
    (created as i128) + (JOIN_WINDOW_SECONDS as i128) < (now as i128)
}

/// The notice sent when a player cannot pay the wager after all.
pub fn cheater_notice(user: u64) -> (s: String)
    ensures
        s@ == mention(user) + " twied to cheat. game aborted"@,
{
    let mut s = String::from_str("<@");
    push_decimal(&mut s, user);
    s.append(">");
    s.append(" twied to cheat. game aborted");
    s
}

impl PokerLobby {
    /// What follows the taking of both wagers, the first player's first: whether each
    /// could be paid. When both could, the round starts at `now` (see
    /// [`PokerLobby::start_round`]); else the first that failed is named and the lobby
    /// is left as it was (the second player's wager is not taken when the first's
    /// failed).
    pub fn after_wagers(&mut self, paid1: bool, paid2: bool, now: u64) -> (w: WagerStep)
        requires
            old(self)@.ready(),
            old(self)@.deck.len() >= 10,
            now <= u64::MAX - SELECTION_SECONDS,
        ensures
            final(self).uuid() == old(self).uuid(),
            paid1 && paid2 ==> w == WagerStep::Started && final(self)@ == old(self)@.with_timeout(
                (now + SELECTION_SECONDS) as u64,
            ).after_deal(),
            !paid1 ==> w == (WagerStep::Abort { cheater: old(self)@.player1->0 }),
            paid1 && !paid2 ==> w == (WagerStep::Abort { cheater: old(self)@.player2->0 }),
            !(paid1 && paid2) ==> final(self)@ == old(self)@,
    {
        let p1 = match self.player1() {
            Some(p) => p.id,
            None => 0,
        };
        let p2 = match self.player2() {
            Some(p) => p.id,
            None => 0,
        };
        if !paid1 {
            WagerStep::Abort { cheater: p1 }
        } else if !paid2 {
            WagerStep::Abort { cheater: p2 }
        } else {
            self.start_round(now);
            WagerStep::Started
        }
    }

    /// What the passing of time does at `now`. Once the selection time is over, both
    /// players count as having picked and the game is settled. A lobby whose seats
    /// are not both taken is abandoned when no button was pressed and its message,
    /// sent at `created`, is older than [`JOIN_WINDOW_SECONDS`].
    pub fn on_tick(&mut self, now: u64, created: i64, idle: bool) -> (t: LobbyTick)
        ensures
            final(self).uuid() == old(self).uuid(),
            old(self)@.ready() && !old(self)@.selections_done() && old(self)@.timed_out(now) ==> t
                == LobbyTick::Finish && final(self)@ == old(self)@.all_selected(),
            !(old(self)@.ready() && !old(self)@.selections_done() && old(self)@.timed_out(now))
                ==> final(self)@ == old(self)@ && t == if !old(self)@.ready() && idle
                && join_window_closed(created, now) {
                LobbyTick::Abandon
            } else {
                LobbyTick::Wait
            },
    {
        if self.is_ready() && !self.are_selections_done() && self.is_player_timeout_expired(now) {
            self.auto_select_on_timeout(now);
            LobbyTick::Finish
        } else if !self.is_ready() && idle && join_window_expired(created, now) {
            LobbyTick::Abandon
        } else {
            LobbyTick::Wait
        }
    }

    /// The notice sent when the game is aborted for `reason`; it says that the wagers
    /// were refunded when they were (see [`PokerLobby::refunds_on_abort`]).
    pub fn abort_message(&self, reason: &str) -> (s: String)
        ensures
            s@ == "poker game aborted: "@ + reason@ + if self@.ready() && self@.draw_timeout is Some
                && !self@.selections_done() {
                ". wagers refunded."@
            } else {
                "."@
            },
    {
        let mut s = String::from_str("poker game aborted: ");
        s.append(reason);
        if self.refunds_on_abort() {
            s.append(". wagers refunded.");
        } else {
            s.append(".");
        }
        s
    }
}

} // verus!
