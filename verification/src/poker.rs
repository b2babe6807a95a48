//! Two-player five-card draw poker played for catcoin.
use std::cmp::Ordering;
use vstd::prelude::*;

use crate::cards::{fresh_deck, Card, Deck};
use crate::emoji::{emoji, EmojiTable};
use crate::hand::{
    compare_hands, hand_rank_of, law_sort_by_rank_permutes, redraw_result, sort_by_rank, Hand,
};
use crate::text::{
    decimal, law_parse_reads_decimal, parse_unsigned, parse_usize, push_decimal, skip_chars,
    starts_with,
};

verus! {

/// Seconds each player has to pick the cards to redraw.
pub const SELECTION_SECONDS: u64 = 30;

/// The answer when someone tries to join a full lobby.
pub const LOBBY_FULL: &'static str = "da lobby is full >//<";

/// Seconds a lobby waits for its second player before it gives up.
pub const JOIN_WINDOW_SECONDS: i64 = 600;

/// A player: the discord user id and the name shown for them.
#[derive(Debug, Clone)]
pub struct Player {
    pub id: u64,
    pub name: String,
}

/// What a lobby holds, as plain values.
pub struct LobbyView {
    pub wager: u64,
    pub player1: Option<u64>,
    pub player2: Option<u64>,
    pub deck: Seq<Card>,
    pub hand1: Option<Seq<Card>>,
    pub hand2: Option<Seq<Card>>,
    pub selected1: bool,
    pub selected2: bool,
    pub redrawn1: nat,
    pub redrawn2: nat,
    pub draw_timeout: Option<u64>,
}

/// The card index that a selection value names: `card` followed by an index
/// (`str::parse::<usize>` reads it); other values name none.
pub open spec fn card_index(s: Seq<char>) -> Option<usize> {
    if s.len() >= 4 && s.take(4) == "card"@ {
        match parse_unsigned(s.skip(4), usize::MAX as int) {
            Some(v) => Some(v as usize),
            None => None,
        }
    } else {
        None
    }
}

/// The card indices named by a list of selection values, in order.
pub open spec fn selection_indices(sel: Seq<Seq<char>>) -> Seq<usize>
    decreases sel.len(),
{
    if sel.len() == 0 {
        seq![]
    } else {
        selection_indices(sel.drop_last()) + match card_index(sel.last()) {
            Some(i) => seq![i],
            None => seq![],
        }
    }
}

/// Each option of the redraw menu names its own card: picking the options at
/// positions `picks` (each below five) selects exactly those positions, in the order
/// they were picked.
pub proof fn law_menu_values_name_their_cards(picks: Seq<nat>)
    requires
        forall|i: int| 0 <= i < picks.len() ==> #[trigger] picks[i] < 5,
    ensures
        selection_indices(picks.map_values(|p: nat| option_value(p))) == picks.map_values(
            |p: nat| p as usize,
        ),
    decreases picks.len(),
{
    if picks.len() > 0 {
        let rest = picks.drop_last();
        assert forall|i: int| 0 <= i < rest.len() implies #[trigger] rest[i] < 5 by {
            assert(rest[i] == picks[i]);
        }
        law_menu_values_name_their_cards(rest);
        let v = picks.map_values(|p: nat| option_value(p));
        assert(v.drop_last() =~= rest.map_values(|p: nat| option_value(p)));
        let p = picks.last();
        assert(p < 5);
        let s = option_value(p);
        assert(v.last() == s);
        reveal_strlit("card");
        crate::text::lemma_decimal_nonempty(p);
        assert(s.take(4) =~= "card"@);
        assert(s.skip(4) =~= decimal(p));
        law_parse_reads_decimal(p, usize::MAX as int);
        assert(card_index(s) == Some(p as usize));
        assert(picks.map_values(|p: nat| p as usize) =~= rest.map_values(|p: nat| p as usize).push(
            p as usize,
        ));
    }
}

/// The view of an optional hand.
pub open spec fn hand_view(h: Option<Hand>) -> Option<Seq<Card>> {
    match h {
        Some(h) => Some(h.cards@),
        None => None,
    }
}

/// The status shown after a player's name while hands are being drawn.
pub open spec fn status_text(selected: bool, redrawn: nat) -> Seq<char> {
    if selected && redrawn > 0 {
        " (redrew "@ + decimal(redrawn) + " card"@ + (if redrawn == 1 {
            ""@
        } else {
            "s"@
        }) + ")"@
    } else if selected {
        " (ready)"@
    } else {
        ""@
    }
}

/// Which buttons a lobby message offers.
#[derive(Debug, Clone, Copy, PartialEq, Eq, Structural)]
pub enum LobbyStage {
    /// Waiting for players: a join button.
    Joining,
    /// Players pick cards to redraw: a view button.
    Drawing,
    /// Both players are done: no buttons.
    Finished,
}

/// The texts of a list of strings.
pub open spec fn texts(v: Seq<String>) -> Seq<Seq<char>> {
    v.map_values(|s: String| s@)
}

impl LobbyView {
    /// The lobby after player `player_num` submits `sel`: a player who has not yet
    /// picked and holds a hand either keeps it (when "none" is among the values) or
    /// redraws the named cards and sorts the hand; either way they have picked.
    /// Anything else leaves the lobby as it is.
    pub open spec fn after_selection(self, player_num: u8, sel: Seq<Seq<char>>) -> LobbyView {
        let idx = selection_indices(sel);
        if player_num == 1 && !self.selected1 && self.hand1 is Some {
            if sel.contains("none"@) {
                LobbyView { selected1: true, ..self }
            } else {
                let r = redraw_result(self.hand1->0, self.deck, idx);
                LobbyView {
                    hand1: Some(sort_by_rank(r.0)),
                    deck: r.1,
                    redrawn1: idx.len(),
                    selected1: true,
                    ..self
                }
            }
        } else if player_num == 2 && !self.selected2 && self.hand2 is Some {
            if sel.contains("none"@) {
                LobbyView { selected2: true, ..self }
            } else {
                let r = redraw_result(self.hand2->0, self.deck, idx);
                LobbyView {
                    hand2: Some(sort_by_rank(r.0)),
                    deck: r.1,
                    redrawn2: idx.len(),
                    selected2: true,
                    ..self
                }
            }
        } else {
            self
        }
    }
}

/// The cards of a hand that was dealt, none otherwise.
pub open spec fn opt_cards(h: Option<Seq<Card>>) -> Seq<Card> {
    match h {
        Some(c) => c,
        None => seq![],
    }
}

/// The cards in play in a lobby: the deck, then each hand that was dealt.
pub open spec fn cards_in_play(v: LobbyView) -> Seq<Card> {
    v.deck + opt_cards(v.hand1) + opt_cards(v.hand2)
}

proof fn lemma_three_parts(a: Seq<Card>, b: Seq<Card>, c: Seq<Card>)
    ensures
        (a + b + c).to_multiset() == a.to_multiset().add(b.to_multiset()).add(c.to_multiset()),
{
    vstd::seq_lib::lemma_multiset_commutative(a + b, c);
    vstd::seq_lib::lemma_multiset_commutative(a, b);
}

/// Dealing moves the top ten cards of the deck into the two hands: the cards in play
/// stay the same, each as often as before.
pub proof fn law_deal_keeps_cards(v: LobbyView)
    requires
        v.ready(),
        v.deck.len() >= 10,
        v.hand1 is None,
        v.hand2 is None,
    ensures
        cards_in_play(v.after_deal()).to_multiset() == cards_in_play(v).to_multiset(),
{
    broadcast use vstd::multiset::group_multiset_axioms;

    let d = v.deck;
    let top = d.skip(d.len() - 5);
    let d2 = d.take(d.len() - 5);
    let next = d2.skip(d2.len() - 5);
    let rest = d2.take(d2.len() - 5);
    let w = v.after_deal();
    law_sort_by_rank_permutes(top.reverse());
    law_sort_by_rank_permutes(next.reverse());
    top.lemma_reverse_to_multiset();
    next.lemma_reverse_to_multiset();
    assert(d =~= d2 + top);
    assert(d2 =~= rest + next);
    vstd::seq_lib::lemma_multiset_commutative(d2, top);
    vstd::seq_lib::lemma_multiset_commutative(rest, next);
    lemma_three_parts(w.deck, opt_cards(w.hand1), opt_cards(w.hand2));
    lemma_three_parts(v.deck, opt_cards(v.hand1), opt_cards(v.hand2));
    assert(opt_cards(v.hand1) =~= Seq::<Card>::empty());
    assert(opt_cards(v.hand2) =~= Seq::<Card>::empty());
    assert(cards_in_play(w).to_multiset() =~= cards_in_play(v).to_multiset());
}

proof fn lemma_redraw_takes_from_deck(cards: Seq<Card>, deck: Seq<Card>, idx: Seq<usize>)
    requires
        cards.len() == 5,
    ensures
        redraw_result(cards, deck, idx).0.len() == 5,
        redraw_result(cards, deck, idx).1.to_multiset().add(redraw_result(cards, deck, idx).0.to_multiset()).subset_of(
            deck.to_multiset().add(cards.to_multiset()),
        ),
    decreases idx.len(),
{
    broadcast use vstd::multiset::group_multiset_axioms;
    broadcast use vstd::seq_lib::group_to_multiset_ensures;

    if idx.len() == 0 {
    } else if idx[0] < 5 && deck.len() > 0 {
        let i = idx[0] as int;
        let c2 = cards.update(i, deck.last());
        let d2 = deck.drop_last();
        lemma_redraw_takes_from_deck(c2, d2, idx.drop_first());
        assert(deck =~= d2.push(deck.last()));
        assert(c2.to_multiset() == cards.to_multiset().insert(deck.last()).remove(cards[i]));
        assert(d2.to_multiset().add(c2.to_multiset()).subset_of(deck.to_multiset().add(cards.to_multiset())));
    } else {
        lemma_redraw_takes_from_deck(cards, deck, idx.drop_first());
    }
}

/// A pick takes the new cards of a redraw from the deck and throws the old ones
/// away: no card comes into play, so no card is ever in play twice.
pub proof fn law_selection_takes_from_deck(v: LobbyView, player_num: u8, sel: Seq<Seq<char>>)
    requires
        v.hand1 matches Some(h) ==> h.len() == 5,
        v.hand2 matches Some(h) ==> h.len() == 5,
    ensures
        cards_in_play(v.after_selection(player_num, sel)).to_multiset().subset_of(
            cards_in_play(v).to_multiset(),
        ),
{
    broadcast use vstd::multiset::group_multiset_axioms;

    let w = v.after_selection(player_num, sel);
    let idx = selection_indices(sel);
    lemma_three_parts(w.deck, opt_cards(w.hand1), opt_cards(w.hand2));
    lemma_three_parts(v.deck, opt_cards(v.hand1), opt_cards(v.hand2));
    let before = cards_in_play(v).to_multiset();
    let after = cards_in_play(w).to_multiset();
    if player_num == 1 && !v.selected1 && v.hand1 is Some && !sel.contains("none"@) {
        let r = redraw_result(v.hand1->0, v.deck, idx);
        lemma_redraw_takes_from_deck(v.hand1->0, v.deck, idx);
        law_sort_by_rank_permutes(r.0);
        assert(w.deck == r.1 && w.hand1 == Some(sort_by_rank(r.0)) && w.hand2 == v.hand2);
        assert forall|c: Card| after.count(c) <= before.count(c) by {
            assert(r.1.to_multiset().add(r.0.to_multiset()).count(c) <= v.deck.to_multiset().add(
                (v.hand1->0).to_multiset(),
            ).count(c));
        }
    } else if player_num == 2 && !v.selected2 && v.hand2 is Some && !sel.contains("none"@) {
        let r = redraw_result(v.hand2->0, v.deck, idx);
        lemma_redraw_takes_from_deck(v.hand2->0, v.deck, idx);
        law_sort_by_rank_permutes(r.0);
        assert(w.deck == r.1 && w.hand2 == Some(sort_by_rank(r.0)) && w.hand1 == v.hand1);
        assert forall|c: Card| after.count(c) <= before.count(c) by {
            assert(r.1.to_multiset().add(r.0.to_multiset()).count(c) <= v.deck.to_multiset().add(
                (v.hand2->0).to_multiset(),
            ).count(c));
        }
    } else {
        assert(cards_in_play(w) == cards_in_play(v));
    }
}

/// Reads the card index of one selection value.
fn parse_card_index(s: &str) -> (r: Option<usize>)
    ensures
        r == card_index(s@),
{
    proof {
        reveal_strlit("card");
    }
    if starts_with(s, "card") {
        let rest = skip_chars(s, 4);
        parse_usize(rest)
    } else {
        None
    }
}

/// The card indices named by the selection values, in order.
pub fn selected_indices(selections: &[String]) -> (v: Vec<usize>)
    ensures
        v@ == selection_indices(texts(selections@)),
{
    let ghost sel = texts(selections@);
    let mut v: Vec<usize> = Vec::new();
    let mut i: usize = 0;
    while i < selections.len()
        invariant
            i <= selections@.len(),
            sel == texts(selections@),
            v@ == selection_indices(sel.take(i as int)),
        decreases selections@.len() - i,
    {
        assert(sel.take(i + 1).drop_last() =~= sel.take(i as int));
        assert(sel[i as int] == selections@[i as int]@);
        match parse_card_index(selections[i].as_str()) {
            Some(idx) => v.push(idx),
            None => {},
        }
        i = i + 1;
        assert(v@ =~= selection_indices(sel.take(i as int)));
    }
    assert(sel.take(selections@.len() as int) =~= sel);
    v
}

/// Whether one of the values is `none`.
pub(crate) fn contains_none(selections: &[String]) -> (b: bool)
    ensures
        b == texts(selections@).contains("none"@),
{
    let ghost sel = texts(selections@);
    let none = String::from_str("none");
    let mut i: usize = 0;
    while i < selections.len()
        invariant
            i <= selections@.len(),
            sel == texts(selections@),
            none@ == "none"@,
            forall|j: int| 0 <= j < i ==> sel[j] != "none"@,
        decreases selections@.len() - i,
    {
        if selections[i] == none {
            assert(sel[i as int] == "none"@);
            return true;
        }
        i = i + 1;
    }
    false
}

/// How a finished game pays out: the winner, if any, and the catcoin granted to
/// each user, in order.
pub struct Settlement {
    pub winner: Option<u64>,
    pub grants: Vec<(u64, u64)>,
}

/// A poker game between two players.
pub struct PokerLobby {
    uuid: String,
    wager: u64,
    player1: Option<Player>,
    player2: Option<Player>,
    deck: Deck,
    player1_hand: Option<Hand>,
    player2_hand: Option<Hand>,
    player1_selected: bool,
    player2_selected: bool,
    player1_redrawn_count: usize,
    player2_redrawn_count: usize,
    /// unix time (seconds) at which the selection time runs out
    draw_timeout: Option<u64>,
}

/// The user id of an optional player.
pub open spec fn player_id(p: Option<Player>) -> Option<u64> {
    match p {
        Some(p) => Some(p.id),
        None => None,
    }
}

impl View for PokerLobby {
    type V = LobbyView;

    closed spec fn view(&self) -> LobbyView {
        LobbyView {
            wager: self.wager,
            player1: player_id(self.player1),
            player2: player_id(self.player2),
            deck: self.deck@,
            hand1: hand_view(self.player1_hand),
            hand2: hand_view(self.player2_hand),
            selected1: self.player1_selected,
            selected2: self.player2_selected,
            redrawn1: self.player1_redrawn_count as nat,
            redrawn2: self.player2_redrawn_count as nat,
            draw_timeout: self.draw_timeout,
        }
    }
}

impl LobbyView {
    /// Both seats are taken.
    pub open spec fn ready(self) -> bool {
        self.player1 is Some && self.player2 is Some
    }

    /// Both players have picked their cards.
    pub open spec fn selections_done(self) -> bool {
        self.selected1 && self.selected2
    }

    /// The lobby with player 1 seated.
    pub open spec fn seat1(self, id: u64) -> LobbyView {
        LobbyView { player1: Some(id), ..self }
    }

    /// The lobby with player 2 seated.
    pub open spec fn seat2(self, id: u64) -> LobbyView {
        LobbyView { player2: Some(id), ..self }
    }

    /// The lobby with a selection deadline.
    pub open spec fn with_timeout(self, t: u64) -> LobbyView {
        LobbyView { draw_timeout: Some(t), ..self }
    }

    /// The lobby with both players counted as having picked.
    pub open spec fn all_selected(self) -> LobbyView {
        LobbyView { selected1: true, selected2: true, ..self }
    }

    /// The selection time has run out at `now`.
    pub open spec fn timed_out(self, now: u64) -> bool {
        match self.draw_timeout {
            Some(t) => now >= t,
            None => false,
        }
    }

    /// The lobby after dealing both hands, when both seats are taken.
    pub open spec fn after_deal(self) -> LobbyView {
        if self.ready() {
            let d = self.deck;
            let first = sort_by_rank(d.skip(d.len() - 5).reverse());
            let d2 = d.take(d.len() - 5);
            let second = sort_by_rank(d2.skip(d2.len() - 5).reverse());
            LobbyView { hand1: Some(first), hand2: Some(second), deck: d2.take(d2.len() - 5), ..self }
        } else {
            self
        }
    }
}

impl PokerLobby {
    /// A lobby with no players, a shuffled deck and the given wager.
    pub fn new(wager: u64, uuid: &str) -> (l: Self)
        ensures
            l@.wager == wager,
            l@.player1 is None && l@.player2 is None,
            l@.hand1 is None && l@.hand2 is None,
            !l@.selected1 && !l@.selected2,
            l@.redrawn1 == 0 && l@.redrawn2 == 0,
            l@.draw_timeout is None,
            l@.deck.len() == 52,
            l@.deck.to_multiset() == fresh_deck().to_multiset(),
            l.uuid()@ == uuid@,
    {
        let mut deck = Deck::new();
        deck.shuffle();
        PokerLobby {
            uuid: uuid.to_owned(),
            wager,
            player1: None,
            player2: None,
            deck,
            player1_hand: None,
            player2_hand: None,
            player1_selected: false,
            player2_selected: false,
            player1_redrawn_count: 0,
            player2_redrawn_count: 0,
            draw_timeout: None,
        }
    }

    /// The id that the lobby's buttons start with.
    pub closed spec fn uuid(&self) -> String {
        self.uuid
    }

    /// The players in the two seats.
    pub closed spec fn seated(&self) -> (Option<Player>, Option<Player>) {
        (self.player1, self.player2)
    }

    /// The id that the lobby's buttons start with.
    pub fn uuid_text(&self) -> (s: &str)
        ensures
            s@ == self.uuid()@,
    {
        self.uuid.as_str()
    }

    /// The wager of each player.
    pub fn wager(&self) -> (w: u64)
        ensures
            w == self@.wager,
    {
        self.wager
    }

    /// The first player, if seated.
    pub fn player1(&self) -> (p: &Option<Player>)
        ensures
            player_id(*p) == self@.player1,
            *p == self.seated().0,
    {
        &self.player1
    }

    /// The second player, if seated.
    pub fn player2(&self) -> (p: &Option<Player>)
        ensures
            player_id(*p) == self@.player2,
            *p == self.seated().1,
    {
        &self.player2
    }

    /// Cards left in the deck.
    pub fn deck_len(&self) -> (n: usize)
        ensures
            n == self@.deck.len(),
    {
        self.deck.len()
    }

    /// Seats a player in the first free seat; fails when both are taken.
    pub fn try_register_player(&mut self, user: Player) -> (r: Result<(), &'static str>)
        ensures
            old(self)@.player1 is None ==> r is Ok && final(self)@ == old(self)@.seat1(user.id)
                && final(self).seated() == (Some(user), old(self).seated().1),
            old(self)@.player1 is Some && old(self)@.player2 is None ==> r is Ok && final(self)@
                == old(self)@.seat2(user.id) && final(self).seated() == (old(self).seated().0, Some(user)),
            final(self).uuid() == old(self).uuid(),
            old(self)@.ready() ==> r == Err::<(), &'static str>(LOBBY_FULL) && final(self)@ == old(self)@,
    {
        if self.player1.is_none() {
            self.player1 = Some(user);
        } else if self.player2.is_none() {
            self.player2 = Some(user);
        } else {
            return Err(LOBBY_FULL);
        }
        Ok(())
    }

    /// Both seats are taken.
    pub fn is_ready(&self) -> (b: bool)
        ensures
            b == self@.ready(),
    {
        self.player1.is_some() && self.player2.is_some()
    }

    /// Both players have picked the cards to redraw.
    pub fn are_selections_done(&self) -> (b: bool)
        ensures
            b == self@.selections_done(),
    {
        self.player1_selected && self.player2_selected
    }

    /// Deals a hand to each player once both seats are taken.
    pub fn deal_initial_hands(&mut self)
        requires
            old(self)@.ready() ==> old(self)@.deck.len() >= 10,
        ensures
            final(self).uuid() == old(self).uuid(),
            final(self)@ == old(self)@.after_deal(),
    {
        if self.is_ready() {
            self.player1_hand = Some(self.deck.deal_hand());
            self.player2_hand = Some(self.deck.deal_hand());
        }
    }

    /// Starts the selection time at `now`: it runs out [`SELECTION_SECONDS`] later.
    pub fn set_selection_timeout(&mut self, now: u64)
        requires
            now <= u64::MAX - SELECTION_SECONDS,
        ensures
            final(self).uuid() == old(self).uuid(),
            final(self)@ == old(self)@.with_timeout((now + SELECTION_SECONDS) as u64),
    {
        self.draw_timeout = Some(now + SELECTION_SECONDS);
    }

    /// Once the wagers are paid: starts the selection time and deals the hands.
    pub fn start_round(&mut self, now: u64)
        requires
            now <= u64::MAX - SELECTION_SECONDS,
            old(self)@.ready() ==> old(self)@.deck.len() >= 10,
        ensures
            final(self).uuid() == old(self).uuid(),
            final(self)@ == old(self)@.with_timeout((now + SELECTION_SECONDS) as u64).after_deal(),
    {
        self.set_selection_timeout(now);
        self.deal_initial_hands();
    }

    /// The selection deadline as a discord relative timestamp, empty without one.
    pub fn format_timeout_timestamp(&self) -> (s: String)
        ensures
            s@ == timeout_text(self@.draw_timeout),
    {
        match self.draw_timeout {
            Some(t) => {
                let mut s = String::from_str("<t:");
                push_decimal(&mut s, t);
                s.append(":R>");
                assert(s@ =~= timeout_text(self.draw_timeout));
                s
            },
            None => {
                proof {
                    reveal_strlit("");
                }
                let s = String::new();
                assert(s@ =~= timeout_text(self.draw_timeout));
                s
            },
        }
    }

    /// Whether the selection time has run out at `now`.
    pub fn is_player_timeout_expired(&self, now: u64) -> (b: bool)
        ensures
            b == self@.timed_out(now),
    {
        match self.draw_timeout {
            Some(deadline) => now >= deadline,
            None => false,
        }
    }

    /// When the selection time has run out, both players count as having picked.
    pub fn auto_select_on_timeout(&mut self, now: u64)
        ensures
            final(self).uuid() == old(self).uuid(),
            old(self)@.timed_out(now) ==> final(self)@ == old(self)@.all_selected(),
            !old(self)@.timed_out(now) ==> final(self)@ == old(self)@,
    {
        if self.is_player_timeout_expired(now) {
            self.player1_selected = true;
            self.player2_selected = true;
        }
    }

    /// Which buttons the lobby message shows.
    pub fn stage(&self) -> (s: LobbyStage)
        ensures
            s == if !self@.ready() {
                LobbyStage::Joining
            } else if !self@.selections_done() {
                LobbyStage::Drawing
            } else {
                LobbyStage::Finished
            },
    {
        if !self.is_ready() {
            LobbyStage::Joining
        } else if !self.are_selections_done() {
            LobbyStage::Drawing
        } else {
            LobbyStage::Finished
        }
    }

    /// Whether player 1 or 2 has picked.
    pub fn has_selected(&self, player_num: u8) -> (b: bool)
        ensures
            b == if player_num == 1 {
                self@.selected1
            } else if player_num == 2 {
                self@.selected2
            } else {
                false
            },
    {
        if player_num == 1 {
            self.player1_selected
        } else if player_num == 2 {
            self.player2_selected
        } else {
            false
        }
    }

    /// The seat (1 or 2) of a user, if they play in this lobby.
    pub fn get_player_num(&self, user: u64) -> (r: Option<u8>)
        ensures
            r == if self@.player1 == Some(user) {
                Some(1u8)
            } else if self@.player2 == Some(user) {
                Some(2u8)
            } else {
                None
            },
    {
        let p1 = match &self.player1 {
            Some(p) => p.id == user,
            None => false,
        };
        if p1 {
            return Some(1);
        }
        let p2 = match &self.player2 {
            Some(p) => p.id == user,
            None => false,
        };
        if p2 {
            Some(2)
        } else {
            None
        }
    }

    /// The hand of player 1 or 2, if dealt.
    pub fn get_hand(&self, player_num: u8) -> (r: Option<&Hand>)
        ensures
            hand_view(
                match r {
                    Some(h) => Some(*h),
                    None => None,
                },
            ) == if player_num == 1 {
                self@.hand1
            } else if player_num == 2 {
                self@.hand2
            } else {
                None
            },
    {
        if player_num == 1 {
            match &self.player1_hand {
                Some(h) => Some(h),
                None => None,
            }
        } else if player_num == 2 {
            match &self.player2_hand {
                Some(h) => Some(h),
                None => None,
            }
        } else {
            None
        }
    }

    /// The hand of player 1 or 2, dealing both hands first when that one is missing.
    pub fn get_hand_or_deal(&mut self, player_num: u8) -> (h: Hand)
        requires
            player_num == 1 || player_num == 2,
            player_num == 1 && old(self)@.hand1 is None ==> old(self)@.ready()
                && old(self)@.deck.len() >= 10,
            player_num == 2 && old(self)@.hand2 is None ==> old(self)@.ready()
                && old(self)@.deck.len() >= 10,
        ensures
            final(self).uuid() == old(self).uuid(),
            (player_num == 1 && old(self)@.hand1 is Some) || (player_num == 2
                && old(self)@.hand2 is Some) ==> final(self)@ == old(self)@,
            (player_num == 1 && old(self)@.hand1 is None) || (player_num == 2
                && old(self)@.hand2 is None) ==> final(self)@ == old(self)@.after_deal(),
            Some(h.cards@) == if player_num == 1 {
                final(self)@.hand1
            } else {
                final(self)@.hand2
            },
    {
        if player_num == 1 {
            if self.player1_hand.is_none() {
                self.deal_initial_hands();
            }
            self.player1_hand.unwrap()
        } else {
            if self.player2_hand.is_none() {
                self.deal_initial_hands();
            }
            self.player2_hand.unwrap()
        }
    }

    /// Applies a player's card selection (see [`LobbyView::after_selection`]).
    pub fn process_card_selection(&mut self, player_num: u8, selections: &[String])
        ensures
            final(self)@ == old(self)@.after_selection(player_num, texts(selections@)),
            final(self).uuid() == old(self).uuid(),
    {
        let indices = selected_indices(selections);
        let has_none = contains_none(selections);
        if player_num == 1 && !self.player1_selected {
            if let Some(hand) = self.player1_hand {
                if has_none {
                    self.player1_selected = true;
                    return;
                }
                self.player1_redrawn_count = indices.len();
                let mut hand = hand;
                hand.redraw(&mut self.deck, indices.as_slice());
                hand.sort();
                self.player1_hand = Some(hand);
                self.player1_selected = true;
            }
        } else if player_num == 2 && !self.player2_selected {
            if let Some(hand) = self.player2_hand {
                if has_none {
                    self.player2_selected = true;
                    return;
                }
                self.player2_redrawn_count = indices.len();
                let mut hand = hand;
                hand.redraw(&mut self.deck, indices.as_slice());
                hand.sort();
                self.player2_hand = Some(hand);
                self.player2_selected = true;
            }
        }
    }

    /// The status shown after player 1's or 2's name while hands are drawn.
    pub fn player_status(&self, player_num: u8) -> (s: String)
        ensures
            s@ == if player_num == 1 {
                status_text(self@.selected1, self@.redrawn1)
            } else {
                status_text(self@.selected2, self@.redrawn2)
            },
    {
        let (selected, redrawn) = if player_num == 1 {
            (self.player1_selected, self.player1_redrawn_count)
        } else {
            (self.player2_selected, self.player2_redrawn_count)
        };
        proof {
            reveal_strlit("");
        }
        if selected && redrawn > 0 {
            let mut s = String::from_str(" (redrew ");
            push_decimal(&mut s, redrawn as u64);
            s.append(" card");
            if redrawn == 1 {
                s.append("");
            } else {
                s.append("s");
            }
            s.append(")");
            assert(s@ =~= status_text(selected, redrawn as nat));
            s
        } else if selected {
            String::from_str(" (ready)")
        } else {
            let s = String::new();
            assert(s@ =~= ""@);
            s
        }
    }

    /// Whether aborting the game refunds the wagers: both players joined, the
    /// wagers were taken (a selection deadline was set) and the picks are not done.
    pub fn refunds_on_abort(&self) -> (b: bool)
        ensures
            b == (self@.ready() && self@.draw_timeout is Some && !self@.selections_done()),
    {
        self.is_ready() && self.draw_timeout.is_some() && !self.are_selections_done()
    }
}

/// Both wagers together.
pub open spec fn pot(wager: u64) -> u64 {
    (2 * wager) as u64
}

/// The selection deadline as a discord relative timestamp, empty without one.
pub open spec fn timeout_text(d: Option<u64>) -> Seq<char> {
    match d {
        Some(t) => "<t:"@ + decimal(t as nat) + ":R>"@,
        None => ""@,
    }
}

/// How discord writes a mention of a user.
pub open spec fn mention(id: u64) -> Seq<char> {
    "<@"@ + decimal(id as nat) + ">"@
}

/// A seat in the lobby message: a mention of its player, or `open`.
pub open spec fn seat_text(p: Option<u64>) -> Seq<char> {
    match p {
        Some(id) => mention(id),
        None => "open"@,
    }
}

/// `s` written `n` times.
pub open spec fn repeat(s: Seq<char>, n: nat) -> Seq<char>
    decreases n,
{
    if n == 0 {
        seq![]
    } else {
        repeat(s, (n - 1) as nat) + s
    }
}

/// The title of a lobby message.
pub open spec fn lobby_title(t: Map<Seq<char>, Seq<char>>, wager: u64) -> Seq<char> {
    "♠️ poker - "@ + decimal(wager as nat) + " "@ + t["catcoin"@] + " wager ♦️"@
}

/// The table has the emoji that a lobby message shows.
pub open spec fn has_lobby_emojis(t: Map<Seq<char>, Seq<char>>) -> bool {
    &&& t.contains_key("catcoin"@)
    &&& t.contains_key("defense_position"@)
    &&& t.contains_key("attack_position"@)
    &&& t.contains_key("card_back"@)
}

/// A field of a discord embed.
pub struct EmbedField {
    pub name: String,
    pub value: String,
    pub inline: bool,
}

/// The embed of a lobby message.
pub struct LobbyEmbed {
    pub title: String,
    pub fields: Vec<EmbedField>,
    pub description: Option<String>,
}

/// A row of the emoji for a list of cards: the top halves (rank, red or black).
pub open spec fn rank_row(t: Map<Seq<char>, Seq<char>>, cards: Seq<Card>) -> Seq<char>
    decreases cards.len(),
{
    if cards.len() == 0 {
        seq![]
    } else {
        rank_row(t, cards.drop_last()) + t[cards.last().rank.emoji_key(cards.last().suit.red())]
    }
}

/// A row of the emoji for a list of cards: the bottom halves (suit).
pub open spec fn suit_row(t: Map<Seq<char>, Seq<char>>, cards: Seq<Card>) -> Seq<char>
    decreases cards.len(),
{
    if cards.len() == 0 {
        seq![]
    } else {
        suit_row(t, cards.drop_last()) + t[cards.last().suit.emoji_key()]
    }
}

/// The table has both emoji halves of every card.
pub open spec fn has_card_emojis(t: Map<Seq<char>, Seq<char>>, cards: Seq<Card>) -> bool {
    forall|i: int|
        0 <= i < cards.len() ==> t.contains_key(#[trigger] cards[i].rank.emoji_key(
            cards[i].suit.red(),
        )) && t.contains_key(cards[i].suit.emoji_key())
}

/// A hand drawn with emoji: the top halves, a line break, the bottom halves.
pub open spec fn hand_text(t: Map<Seq<char>, Seq<char>>, cards: Seq<Card>) -> Seq<char> {
    rank_row(t, cards) + "\n"@ + suit_row(t, cards)
}

/// A hand drawn with emoji, followed by the name of its category in bold.
pub open spec fn hand_text_with_rank(t: Map<Seq<char>, Seq<char>>, cards: Seq<Card>) -> Seq<char> {
    hand_text(t, cards) + "\n**"@ + hand_rank_of(cards).label() + "**"@
}

/// The label of the card at position `i` in the redraw menu.
pub open spec fn option_label(i: nat, c: Card) -> Seq<char> {
    decimal(i + 1) + ". "@ + c.rank.label() + " of "@ + c.suit.label()
}

/// The value of the card at position `i` in the redraw menu.
pub open spec fn option_value(i: nat) -> Seq<char> {
    "card"@ + decimal(i)
}

/// `m` is the redraw menu of a lobby with id `uuid` for a player holding `cards`:
/// one option per card, then `none`.
pub open spec fn is_card_menu(m: CardSelectMenu, uuid: Seq<char>, cards: Seq<Card>) -> bool {
    &&& m.custom_id@ == uuid + "-select"@
    &&& m.options@.len() == 6
    &&& forall|i: int|
        0 <= i < 5 ==> {
            &&& (#[trigger] m.options@[i]).0@ == option_label(i as nat, cards[i])
            &&& m.options@[i].1@ == option_value(i as nat)
        }
    &&& m.options@[5].0@ == "none"@
    &&& m.options@[5].1@ == "none"@
    &&& m.placeholder@ == "select cards to redraw (or none)"@
    &&& m.min_values == 0
    &&& m.max_values == 6
}

/// The menu in which a player picks the cards to redraw.
pub struct CardSelectMenu {
    pub custom_id: String,
    /// (label, value) of each option, in order
    pub options: Vec<(String, String)>,
    pub placeholder: &'static str,
    pub min_values: u8,
    pub max_values: u8,
}

/// How a lobby button looks.
#[derive(Debug, Clone, Copy, PartialEq, Eq, Structural)]
pub enum ButtonKind {
    Primary,
    Success,
}

/// A button under the lobby message.
pub struct LobbyButton {
    pub custom_id: String,
    pub label: &'static str,
    pub emoji: Option<char>,
    pub kind: ButtonKind,
}

impl PokerLobby {
    /// Settles a finished game: the stronger hand takes both wagers; on a draw each
    /// player gets their own wager back, player 2 first.
    pub fn settle(&self) -> (s: Settlement)
        requires
            self@.ready(),
            self@.hand1 is Some,
            self@.hand2 is Some,
            2 * self@.wager <= u64::MAX,
        ensures
            match compare_hands(self@.hand1->0, self@.hand2->0) {
                Ordering::Greater => s.winner == self@.player1 && s.grants@ == seq![
                    (self@.player1->0, pot(self@.wager)),
                ],
                Ordering::Less => s.winner == self@.player2 && s.grants@ == seq![
                    (self@.player2->0, pot(self@.wager)),
                ],
                Ordering::Equal => s.winner is None && s.grants@ == seq![
                    (self@.player2->0, self@.wager),
                    (self@.player1->0, self@.wager),
                ],
            },
    {
        let h1 = self.player1_hand.unwrap();
        let h2 = self.player2_hand.unwrap();
        let p1 = match &self.player1 {
            Some(p) => p.id,
            None => 0,
        };
        let p2 = match &self.player2 {
            Some(p) => p.id,
            None => 0,
        };
        let mut grants: Vec<(u64, u64)> = Vec::new();
        match h1.compare(&h2) {
            Ordering::Greater => {
                grants.push((p1, self.wager * 2));
                Settlement { winner: Some(p1), grants }
            },
            Ordering::Less => {
                grants.push((p2, self.wager * 2));
                Settlement { winner: Some(p2), grants }
            },
            Ordering::Equal => {
                grants.push((p2, self.wager));
                grants.push((p1, self.wager));
                Settlement { winner: None, grants }
            },
        }
    }
}

impl PokerLobby {
    /// Draws a hand with emoji: the top halves on one line, the bottom halves on
    /// the next.
    pub fn format_hand(&self, table: &EmojiTable, hand: &Hand) -> (s: String)
        requires
            has_card_emojis(table@, hand.cards@),
        ensures
            s@ == hand_text(table@, hand.cards@),
    {
        let ghost cards = hand.cards@;
        let mut result = String::new();
        let mut i: usize = 0;
        while i < 5
            invariant
                i <= 5,
                cards == hand.cards@,
                has_card_emojis(table@, cards),
                result@ == rank_row(table@, cards.take(i as int)),
            decreases 5 - i,
        {
            let card = hand.cards[i];
            assert(cards.take(i + 1).drop_last() =~= cards.take(i as int));
            assert(table@.contains_key(cards[i as int].rank.emoji_key(cards[i as int].suit.red())));
            let e = card.rank.emoji(table, card.suit.is_red());
            result.append(e.as_str());
            i = i + 1;
        }
        assert(cards.take(5) =~= cards);
        result.append("\n");
        let ghost top = result@;
        let mut j: usize = 0;
        while j < 5
            invariant
                j <= 5,
                cards == hand.cards@,
                has_card_emojis(table@, cards),
                result@ == top + suit_row(table@, cards.take(j as int)),
            decreases 5 - j,
        {
            let card = hand.cards[j];
            assert(cards.take(j + 1).drop_last() =~= cards.take(j as int));
            assert(table@.contains_key(cards[j as int].rank.emoji_key(cards[j as int].suit.red())));
            result.append(card.suit.emoji(table));
            j = j + 1;
            assert(result@ =~= top + suit_row(table@, cards.take(j as int)));
        }
        proof {
            reveal_strlit("\n");
        }
        assert(result@ =~= hand_text(table@, cards));
        result
    }

    /// [`PokerLobby::format_hand`], then the category of the hand in bold.
    pub fn format_hand_with_rank(&self, table: &EmojiTable, hand: &Hand) -> (s: String)
        requires
            has_card_emojis(table@, hand.cards@),
        ensures
            s@ == hand_text_with_rank(table@, hand.cards@),
    {
        let mut result = self.format_hand(table, hand);
        let (rank, _) = hand.evaluate();
        result.append("\n**");
        let label = rank.to_string();
        result.append(label.as_str());
        result.append("**");
        assert(result@ =~= hand_text_with_rank(table@, hand.cards@));
        result
    }

    /// The menu in which player 1 or 2 picks the cards to redraw: one option per
    /// card, then `none`.
    pub fn get_card_select_menu(&self, player_num: u8) -> (m: CardSelectMenu)
        requires
            (player_num == 1 && self@.hand1 is Some) || (player_num == 2 && self@.hand2 is Some),
        ensures
            is_card_menu(m, self.uuid()@, (if player_num == 1 {
                self@.hand1
            } else {
                self@.hand2
            })->0),
    {
        let hand = if player_num == 1 {
            self.player1_hand.unwrap()
        } else {
            self.player2_hand.unwrap()
        };
        let mut custom_id = self.uuid.clone();
        custom_id.append("-select");
        let mut options: Vec<(String, String)> = Vec::new();
        let mut i: usize = 0;
        while i < 5
            invariant
                i <= 5,
                options@.len() == i,
                forall|k: int|
                    0 <= k < i ==> {
                        &&& (#[trigger] options@[k]).0@ == option_label(k as nat, hand.cards@[k])
                        &&& options@[k].1@ == option_value(k as nat)
                    },
            decreases 5 - i,
        {
            let card = hand.cards[i];
            let mut label = String::new();
            push_decimal(&mut label, (i + 1) as u64);
            label.append(". ");
            let r = card.rank.to_string();
            label.append(r.as_str());
            label.append(" of ");
            let su = card.suit.to_string();
            label.append(su.as_str());
            let mut value = String::from_str("card");
            push_decimal(&mut value, i as u64);
            assert(label@ =~= option_label(i as nat, hand.cards@[i as int]));
            assert(value@ =~= option_value(i as nat));
            options.push((label, value));
            i = i + 1;
        }
        options.push((String::from_str("none"), String::from_str("none")));
        CardSelectMenu {
            custom_id,
            options,
            placeholder: "select cards to redraw (or none)",
            min_values: 0,
            max_values: 6,
        }
    }

    /// The buttons under the lobby message: join while seats are open, view while
    /// players pick, none afterwards.
    pub fn to_components(&self) -> (v: Vec<LobbyButton>)
        ensures
            !self@.ready() ==> v@.len() == 1 && v@[0].custom_id@ == self.uuid()@ + "-join"@
                && v@[0].label@ == "join ^-^"@ && v@[0].emoji == Some('🃏') && v@[0].kind
                == ButtonKind::Primary,
            self@.ready() && !self@.selections_done() ==> v@.len() == 1 && v@[0].custom_id@
                == self.uuid()@ + "-view"@ && v@[0].label@ == "redraw cawds"@ && v@[0].emoji
                == Some('👀') && v@[0].kind == ButtonKind::Success,
            self@.ready() && self@.selections_done() ==> v@.len() == 0,
    {
        let mut v: Vec<LobbyButton> = Vec::new();
        if !self.is_ready() {
            let mut id = self.uuid.clone();
            id.append("-join");
            v.push(
                LobbyButton { custom_id: id, label: "join ^-^", emoji: Some('🃏'), kind: ButtonKind::Primary },
            );
        } else if !self.are_selections_done() {
            let mut id = self.uuid.clone();
            id.append("-view");
            v.push(
                LobbyButton {
                    custom_id: id,
                    label: "redraw cawds",
                    emoji: Some('👀'),
                    kind: ButtonKind::Success,
                },
            );
        }
        v
    }
}

/// Writes the text of a seat (see [`seat_text`]).
fn seat_string(p: &Option<Player>) -> (s: String)
    ensures
        s@ == seat_text(player_id(*p)),
{
    match p {
        Some(p) => {
            let mut s = String::from_str("<@");
            push_decimal(&mut s, p.id);
            s.append(">");
            assert(s@ =~= mention(p.id));
            s
        },
        None => String::from_str("open"),
    }
}

/// Writes `s` `n` times.
fn repeat_string(s: &str, n: usize) -> (r: String)
    ensures
        r@ == repeat(s@, n as nat),
{
    let mut r = String::new();
    let mut i: usize = 0;
    while i < n
        invariant
            i <= n,
            r@ == repeat(s@, i as nat),
        decreases n - i,
    {
        r.append(s);
        i = i + 1;
    }
    r
}

impl PokerLobby {
    /// The lobby message: the seats while players join; each player's covered
    /// hand, whether they have picked, and the selection deadline afterwards.
    pub fn to_embed(&self, table: &EmojiTable) -> (e: LobbyEmbed)
        requires
            has_lobby_emojis(table@),
        ensures
            e.title@ == lobby_title(table@, self@.wager),
            !self@.ready() ==> {
                &&& e.fields@.len() == 2
                &&& e.fields@[0].name@ == table@["defense_position"@] + " defense player"@
                &&& e.fields@[0].value@ == seat_text(self@.player1)
                &&& e.fields@[1].name@ == "attack player "@ + table@["attack_position"@]
                &&& e.fields@[1].value@ == seat_text(self@.player2)
                &&& e.description is None
            },
            self@.ready() ==> {
                &&& e.fields@.len() == 2
                &&& e.fields@[0].name@ == self.seated().0->0.name@ + "'s hand"@ + status_text(
                    self@.selected1,
                    self@.redrawn1,
                )
                &&& e.fields@[1].name@ == self.seated().1->0.name@ + "'s hand"@ + status_text(
                    self@.selected2,
                    self@.redrawn2,
                )
                &&& e.fields@[0].value@ == repeat(table@["card_back"@], 5)
                &&& e.fields@[1].value@ == repeat(table@["card_back"@], 5)
                &&& e.description matches Some(d) && d@ == "hands finalized "@ + timeout_text(
                    self@.draw_timeout,
                )
            },
            e.fields@.len() == 2 ==> e.fields@[0].inline && e.fields@[1].inline,
    {
        proof {
            reveal_strlit("catcoin");
            reveal_strlit("defense_position");
            reveal_strlit("attack_position");
            reveal_strlit("card_back");
        }
        let mut title = String::from_str("♠️ poker - ");
        push_decimal(&mut title, self.wager);
        title.append(" ");
        title.append(emoji(table, "catcoin"));
        title.append(" wager ♦️");
        assert(title@ =~= lobby_title(table@, self.wager));
        let mut fields: Vec<EmbedField> = Vec::new();
        if !self.is_ready() {
            let mut n1 = emoji(table, "defense_position").to_owned();
            n1.append(" defense player");
            let mut n2 = String::from_str("attack player ");
            n2.append(emoji(table, "attack_position"));
            fields.push(EmbedField { name: n1, value: seat_string(&self.player1), inline: true });
            fields.push(EmbedField { name: n2, value: seat_string(&self.player2), inline: true });
            LobbyEmbed { title, fields, description: None }
        } else {
            let back = emoji(table, "card_back");
            let mut n1 = match &self.player1 {
                Some(p) => p.name.clone(),
                None => String::new(),
            };
            n1.append("'s hand");
            let st1 = self.player_status(1);
            n1.append(st1.as_str());
            let mut n2 = match &self.player2 {
                Some(p) => p.name.clone(),
                None => String::new(),
            };
            n2.append("'s hand");
            let st2 = self.player_status(2);
            n2.append(st2.as_str());
            fields.push(EmbedField { name: n1, value: repeat_string(back, 5), inline: true });
            fields.push(EmbedField { name: n2, value: repeat_string(back, 5), inline: true });
            let mut d = String::from_str("hands finalized ");
            let ts = self.format_timeout_timestamp();
            d.append(ts.as_str());
            LobbyEmbed { title, fields, description: Some(d) }
        }
    }
}

/// The label of a hand in the results: its category, or `tie_text` (what tells it
/// apart from the other hand) when both hands share a category.
pub open spec fn result_label(cards: Seq<Card>, other: Seq<Card>, tie_text: Seq<char>) -> Seq<char> {
    if hand_rank_of(cards) == hand_rank_of(other) {
        tie_text
    } else {
        hand_rank_of(cards).label()
    }
}

/// The text of the results of lobby `v`: who took the pot with what hand over whom,
/// or a draw. `tie1` and `tie2` tell the hands apart when they share a category.
pub open spec fn results_text(
    t: Map<Seq<char>, Seq<char>>,
    v: LobbyView,
    winner: Option<u64>,
    tie1: Seq<char>,
    tie2: Seq<char>,
) -> Seq<char> {
    let h1 = v.hand1->0;
    let h2 = v.hand2->0;
    let l1 = result_label(h1, h2, tie1);
    let l2 = result_label(h2, h1, tie2);
    match winner {
        Some(w) => {
            let first_won = w == v.player1->0;
            let (wid, wl, lid, ll) = if first_won {
                (v.player1->0, l1, v.player2->0, l2)
            } else {
                (v.player2->0, l2, v.player1->0, l1)
            };
            mention(wid) + " stole +**"@ + decimal(v.wager as nat) + "** "@ + t["catcoin"@] + " with **"@
                + wl + "** over "@ + mention(lid) + "'s **"@ + ll + "**"@
        },
        None => "draw!! "@ + t["catcoin"@] + " catcoins have been returned >w<"@,
    }
}

/// The embed announcing the results of a game.
pub struct PokerResults {
    pub title: String,
    pub description: String,
    /// red, green and blue in one number
    pub color: u32,
}

fn mention_string(id: u64) -> (s: String)
    ensures
        s@ == mention(id),
{
    let mut s = String::from_str("<@");
    push_decimal(&mut s, id);
    s.append(">");
    s
}

impl PokerLobby {
    fn rank_label(&self, hand: &Hand, other: &Hand, tie_text: &str) -> (s: String)
        ensures
            s@ == result_label(hand.cards@, other.cards@, tie_text@),
    {
        let (r, _) = hand.evaluate();
        let (o, _) = other.evaluate();
        if r == o {
            tie_text.to_owned()
        } else {
            r.to_string()
        }
    }

    /// Both hands face up once the game is over, each headed by its player's name
    /// and the label of the hand (see [`result_label`]).
    pub fn create_revealed_hands_embed(&self, table: &EmojiTable, tie1: &str, tie2: &str) -> (e: LobbyEmbed)
        requires
            self@.ready(),
            self@.hand1 is Some,
            self@.hand2 is Some,
            table@.contains_key("catcoin"@),
            has_card_emojis(table@, self@.hand1->0),
            has_card_emojis(table@, self@.hand2->0),
        ensures
            e.title@ == lobby_title(table@, self@.wager),
            e.fields@.len() == 2,
            e.fields@[0].name@ == self.seated().0->0.name@ + "'s hand ("@ + result_label(
                self@.hand1->0,
                self@.hand2->0,
                tie1@,
            ) + ")"@,
            e.fields@[1].name@ == self.seated().1->0.name@ + "'s hand ("@ + result_label(
                self@.hand2->0,
                self@.hand1->0,
                tie2@,
            ) + ")"@,
            e.fields@[0].value@ == hand_text(table@, self@.hand1->0),
            e.fields@[1].value@ == hand_text(table@, self@.hand2->0),
            e.fields@[0].inline && e.fields@[1].inline,
            e.description is None,
    {
        proof {
            reveal_strlit("catcoin");
        }
        let mut title = String::from_str("♠️ poker - ");
        push_decimal(&mut title, self.wager);
        title.append(" ");
        title.append(emoji(table, "catcoin"));
        title.append(" wager ♦️");
        assert(title@ =~= lobby_title(table@, self.wager));
        let h1 = self.player1_hand.unwrap();
        let h2 = self.player2_hand.unwrap();
        let mut n1 = match &self.player1 {
            Some(p) => p.name.clone(),
            None => String::new(),
        };
        n1.append("'s hand (");
        let l1 = self.rank_label(&h1, &h2, tie1);
        n1.append(l1.as_str());
        n1.append(")");
        let mut n2 = match &self.player2 {
            Some(p) => p.name.clone(),
            None => String::new(),
        };
        n2.append("'s hand (");
        let l2 = self.rank_label(&h2, &h1, tie2);
        n2.append(l2.as_str());
        n2.append(")");
        let v1 = self.format_hand(table, &h1);
        let v2 = self.format_hand(table, &h2);
        let mut fields: Vec<EmbedField> = Vec::new();
        fields.push(EmbedField { name: n1, value: v1, inline: true });
        fields.push(EmbedField { name: n2, value: v2, inline: true });
        LobbyEmbed { title, fields, description: None }
    }

    /// The announcement of the results (see [`results_text`]), in gold.
    pub fn results_embed(&self, table: &EmojiTable, winner: Option<u64>, tie1: &str, tie2: &str) -> (e:
        PokerResults)
        requires
            self@.ready(),
            self@.hand1 is Some,
            self@.hand2 is Some,
            table@.contains_key("catcoin"@),
        ensures
            e.title@ == "🏆 poker results 🏆"@,
            e.color == 0xFFD700,
            e.description@ == results_text(table@, self@, winner, tie1@, tie2@),
    {
        proof {
            reveal_strlit("catcoin");
        }
        let coin = emoji(table, "catcoin");
        let description = match winner {
            Some(w) => {
                let h1 = self.player1_hand.unwrap();
                let h2 = self.player2_hand.unwrap();
                let p1 = match &self.player1 {
                    Some(p) => p.id,
                    None => 0,
                };
                let p2 = match &self.player2 {
                    Some(p) => p.id,
                    None => 0,
                };
                let l1 = self.rank_label(&h1, &h2, tie1);
                let l2 = self.rank_label(&h2, &h1, tie2);
                let (wid, wl, lid, ll) = if w == p1 {
                    (p1, l1, p2, l2)
                } else {
                    (p2, l2, p1, l1)
                };
                let mut d = mention_string(wid);
                d.append(" stole +**");
                push_decimal(&mut d, self.wager);
                d.append("** ");
                d.append(coin);
                d.append(" with **");
                d.append(wl.as_str());
                d.append("** over ");
                let m = mention_string(lid);
                d.append(m.as_str());
                d.append("'s **");
                d.append(ll.as_str());
                d.append("**");
                d
            },
            None => {
                let mut d = String::from_str("draw!! ");
                d.append(coin);
                d.append(" catcoins have been returned >w<");
                d
            },
        };
        PokerResults { title: String::from_str("🏆 poker results 🏆"), description, color: 0xFFD700 }
    }
}

} // verus!
