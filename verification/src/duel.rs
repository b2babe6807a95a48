//! A catcoin duel: a defense and an attack player each bet the wager, and a coin
//! flip gives both wagers to one of them.
use vstd::prelude::*;

use crate::poker::{mention, player_id, seat_text, ButtonKind, EmbedField, LobbyButton, Player};
use crate::rng::flip_coin;
use crate::text::{decimal, push_decimal};

verus! {

/// The answer to a player who cannot afford the wager.
pub const DUEL_BROKE: &'static str = "not this time, brokie";

/// The answer to a player who picks a side that is taken.
pub const SPOT_TAKEN: &'static str = "spot's already taken";

/// The answer to a player who tries to take both sides.
pub const SOMEONE_ELSE: &'static str = "someone else, thx";

/// What a duel holds, as plain values.
pub struct DuelView {
    pub wager: u64,
    pub attack: Option<u64>,
    pub defense: Option<u64>,
}

/// A duel waiting for, or holding, its two players.
pub struct Duel {
    uuid: String,
    wager: u64,
    attack: Option<Player>,
    defense: Option<Player>,
}

/// A side of a duel.
#[derive(Debug, Clone, Copy, PartialEq, Eq, Structural)]
pub enum Side {
    Defense,
    Attack,
}

/// What to answer a button press under a duel with.
#[derive(Debug, Clone, Copy, PartialEq, Eq)]
pub enum DuelReply {
    /// Answer privately with this text.
    Refuse(&'static str),
    /// The player took the side: refresh the message and acknowledge; `ready` when
    /// both sides are taken and the wagers are to be taken.
    Joined { ready: bool },
    /// The press was for no side: nothing to do.
    Ignored,
}

/// What follows the taking of both wagers.
#[derive(Debug, Clone, Copy, PartialEq, Eq)]
pub enum DuelStep {
    /// Both paid: flip the coin.
    Flip,
    /// A player could not pay after all: nobody is charged, the notice about
    /// `cheater` is sent (see [`duel_cheater_notice`]), both sides are emptied and the
    /// duel is posted again.
    Abort { cheater: u64 },
}

/// How a duel ends.
pub struct DuelOutcome {
    pub winner: u64,
    pub loser: u64,
    /// the picture shown with the result
    pub image: &'static str,
    /// the catcoin granted to the winner
    pub grant: u64,
}

impl View for Duel {
    type V = DuelView;

    closed spec fn view(&self) -> DuelView {
        DuelView { wager: self.wager, attack: player_id(self.attack), defense: player_id(self.defense) }
    }
}

impl DuelView {
    /// Both sides are taken.
    pub open spec fn ready(self) -> bool {
        self.attack is Some && self.defense is Some
    }

    /// The result of `user` asking for `side`: the side taken by them, or the reason
    /// it is refused.
    pub open spec fn register(self, side: Side, user: u64) -> Result<DuelView, &'static str> {
        match side {
            Side::Defense => if self.defense is Some {
                Err(SPOT_TAKEN)
            } else if self.attack == Some(user) {
                Err(SOMEONE_ELSE)
            } else {
                Ok(DuelView { defense: Some(user), ..self })
            },
            Side::Attack => if self.attack is Some {
                Err(SPOT_TAKEN)
            } else if self.defense == Some(user) {
                Err(SOMEONE_ELSE)
            } else {
                Ok(DuelView { attack: Some(user), ..self })
            },
        }
    }
}

/// The two sides, when both are taken, are held by different users.
pub open spec fn distinct_sides(v: DuelView) -> bool {
    v.attack is Some && v.defense is Some ==> v.attack->0 != v.defense->0
}

/// No one duels themselves: joining keeps the two sides held by different users.
pub proof fn law_no_self_duel(v: DuelView, side: Side, user: u64)
    requires
        distinct_sides(v),
    ensures
        v.register(side, user) matches Ok(w) ==> distinct_sides(w),
{
}

/// The title of a duel message.
pub open spec fn duel_title(wager: u64, coin: Seq<char>) -> Seq<char> {
    "‼️ "@ + decimal(wager as nat) + " "@ + coin + " duel ✨"@
}

/// The announcement of a duel's result.
pub open spec fn duel_result_text(o: DuelOutcome, wager: u64, coin: Seq<char>) -> Seq<char> {
    mention(o.winner) + " beat "@ + mention(o.loser) + " in a duel and stole **+"@ + decimal(
        wager as nat,
    ) + "** "@ + coin + "."@
}

/// Writes a mention of a user.
fn mention_string(id: u64) -> (s: String)
    ensures
        s@ == mention(id),
{
    let mut s = String::from_str("<@");
    push_decimal(&mut s, id);
    s.append(">");
    s
}

/// Writes a seat: a mention of its player, or `open`.
fn side_string(p: &Option<Player>) -> (s: String)
    ensures
        s@ == seat_text(player_id(*p)),
{
    match p {
        Some(p) => mention_string(p.id),
        None => String::from_str("open"),
    }
}

impl Duel {
    /// A duel with both sides open.
    pub fn new(wager: u64, uuid: &str) -> (d: Self)
        ensures
            d@ == (DuelView { wager, attack: None, defense: None }),
            d.uuid()@ == uuid@,
    {
        Duel { uuid: uuid.to_owned(), wager, attack: None, defense: None }
    }

    /// The id that the duel's buttons start with.
    pub closed spec fn uuid(&self) -> String {
        self.uuid
    }

    /// The players on the two sides, defense first.
    pub closed spec fn sides(&self) -> (Option<Player>, Option<Player>) {
        (self.defense, self.attack)
    }

    /// The wager of each side.
    pub fn wager(&self) -> (w: u64)
        ensures
            w == self@.wager,
    {
        self.wager
    }

    /// The defense player, if any.
    pub fn defense(&self) -> (p: &Option<Player>)
        ensures
            player_id(*p) == self@.defense,
            *p == self.sides().0,
    {
        &self.defense
    }

    /// The attack player, if any.
    pub fn attack(&self) -> (p: &Option<Player>)
        ensures
            player_id(*p) == self@.attack,
            *p == self.sides().1,
    {
        &self.attack
    }

    /// The message of the duel: its title and the two sides.
    pub fn to_embed(&self, coin: &str, defense_emoji: &str, attack_emoji: &str) -> (r: (
        String,
        Vec<EmbedField>,
    ))
        ensures
            r.0@ == duel_title(self@.wager, coin@),
            r.1@.len() == 2,
            r.1@[0].name@ == "defense "@ + defense_emoji@,
            r.1@[0].value@ == seat_text(self@.defense),
            r.1@[1].name@ == attack_emoji@ + " attack"@,
            r.1@[1].value@ == seat_text(self@.attack),
            r.1@[0].inline && r.1@[1].inline,
    {
        let mut title = String::from_str("‼️ ");
        push_decimal(&mut title, self.wager);
        title.append(" ");
        title.append(coin);
        title.append(" duel ✨");
        let mut d = String::from_str("defense ");
        d.append(defense_emoji);
        let mut a = attack_emoji.to_owned();
        a.append(" attack");
        let mut fields: Vec<EmbedField> = Vec::new();
        fields.push(EmbedField { name: d, value: side_string(&self.defense), inline: true });
        fields.push(EmbedField { name: a, value: side_string(&self.attack), inline: true });
        (title, fields)
    }

    /// Puts `user` on the defense side, unless it is taken or they hold the attack.
    pub fn try_register_defense(&mut self, user: Player) -> (r: Result<(), &'static str>)
        ensures
            final(self).uuid() == old(self).uuid(),
            match old(self)@.register(Side::Defense, user.id) {
                Ok(v) => r is Ok && final(self)@ == v && final(self).sides() == (
                    Some(user),
                    old(self).sides().1,
                ),
                Err(e) => r == Err::<(), &'static str>(e) && final(self)@ == old(self)@,
            },
    {
        if self.defense.is_some() {
            return Err(SPOT_TAKEN);
        }
        let same = match &self.attack {
            Some(u) => u.id == user.id,
            None => false,
        };
        if same {
            return Err(SOMEONE_ELSE);
        }
        self.defense = Some(user);
        Ok(())
    }

    /// Puts `user` on the attack side, unless it is taken or they hold the defense.
    pub fn try_register_attack(&mut self, user: Player) -> (r: Result<(), &'static str>)
        ensures
            final(self).uuid() == old(self).uuid(),
            match old(self)@.register(Side::Attack, user.id) {
                Ok(v) => r is Ok && final(self)@ == v && final(self).sides() == (
                    old(self).sides().0,
                    Some(user),
                ),
                Err(e) => r == Err::<(), &'static str>(e) && final(self)@ == old(self)@,
            },
    {
        if self.attack.is_some() {
            return Err(SPOT_TAKEN);
        }
        let same = match &self.defense {
            Some(u) => u.id == user.id,
            None => false,
        };
        if same {
            return Err(SOMEONE_ELSE);
        }
        self.attack = Some(user);
        Ok(())
    }

    /// Empties both sides.
    pub fn reset(&mut self)
        ensures
            final(self).uuid() == old(self).uuid(),
            final(self)@ == (DuelView { attack: None, defense: None, ..old(self)@ }),
    {
        self.attack = None;
        self.defense = None;
    }

    /// Both sides are taken.
    pub fn is_ready(&self) -> (b: bool)
        ensures
            b == self@.ready(),
    {
        self.defense.is_some() && self.attack.is_some()
    }

    /// The buttons under the duel message: one for each open side.
    pub fn to_components(&self) -> (v: Vec<LobbyButton>)
        ensures
            v@.len() == (if self@.defense is None { 1int } else { 0int }) + (if self@.attack is None {
                1int
            } else {
                0int
            }),
            self@.defense is None ==> v@[0].custom_id@ == self.uuid()@ + "-defense"@
                && v@[0].label@ == "bet defense"@,
            self@.attack is None ==> v@[v@.len() - 1].custom_id@ == self.uuid()@ + "-attack"@
                && v@[v@.len() - 1].label@ == "bet attack"@,
            forall|i: int|
                0 <= i < v@.len() ==> (#[trigger] v@[i]).kind == ButtonKind::Primary && v@[i].emoji is None,
    {
        let mut v: Vec<LobbyButton> = Vec::new();
        if self.defense.is_none() {
            let mut id = self.uuid.clone();
            id.append("-defense");
            v.push(LobbyButton { custom_id: id, label: "bet defense", emoji: None, kind: ButtonKind::Primary });
        }
        if self.attack.is_none() {
            let mut id = self.uuid.clone();
            id.append("-attack");
            v.push(LobbyButton { custom_id: id, label: "bet attack", emoji: None, kind: ButtonKind::Primary });
        }
        v
    }

    /// Answers a press of the button for `side` (`None` for any other button of the
    /// duel) by a player who holds `balance` catcoin.
    pub fn press(&mut self, side: Option<Side>, user: Player, balance: i64) -> (r: DuelReply)
        ensures
            final(self).uuid() == old(self).uuid(),
            balance < old(self)@.wager as i64 ==> r == DuelReply::Refuse(DUEL_BROKE) && final(self)@
                == old(self)@,
            balance >= old(self)@.wager as i64 ==> match side {
                None => r == DuelReply::Ignored && final(self)@ == old(self)@,
                Some(s) => match old(self)@.register(s, user.id) {
                    Ok(v) => final(self)@ == v && r == (DuelReply::Joined { ready: v.ready() }),
                    Err(e) => final(self)@ == old(self)@ && r == DuelReply::Refuse(e),
                },
            },
    {
        if balance < self.wager as i64 {
            return DuelReply::Refuse(DUEL_BROKE);
        }
        let res = match side {
            None => {
                return DuelReply::Ignored;
            },
            Some(Side::Defense) => self.try_register_defense(user),
            Some(Side::Attack) => self.try_register_attack(user),
        };
        match res {
            Err(e) => DuelReply::Refuse(e),
            Ok(()) => DuelReply::Joined { ready: self.is_ready() },
        }
    }

    /// What follows the taking of both wagers, the defense's first: whether each
    /// could be paid. When one could not, the first that failed is named and both
    /// sides are emptied (the attack's wager is not taken when the defense's failed).
    pub fn after_spends(&mut self, defense_paid: bool, attack_paid: bool) -> (a: DuelStep)
        requires
            old(self)@.ready(),
        ensures
            final(self).uuid() == old(self).uuid(),
            defense_paid && attack_paid ==> a == DuelStep::Flip && final(self)@ == old(self)@,
            !defense_paid ==> a == (DuelStep::Abort { cheater: old(self)@.defense->0 }),
            defense_paid && !attack_paid ==> a == (DuelStep::Abort { cheater: old(self)@.attack->0 }),
            !(defense_paid && attack_paid) ==> final(self)@ == (DuelView {
                attack: None,
                defense: None,
                ..old(self)@
            }),
    {
        let d = match &self.defense {
            Some(p) => p.id,
            None => 0,
        };
        let t = match &self.attack {
            Some(p) => p.id,
            None => 0,
        };
        if !defense_paid {
            self.reset();
            DuelStep::Abort { cheater: d }
        } else if !attack_paid {
            self.reset();
            DuelStep::Abort { cheater: t }
        } else {
            DuelStep::Flip
        }
    }

    /// The end of a duel: the side that won the coin flip takes both wagers.
    pub fn settle(&self, defense_won: bool) -> (o: DuelOutcome)
        requires
            self@.ready(),
            2 * self@.wager <= u64::MAX,
        ensures
            o.grant == 2 * self@.wager,
            defense_won ==> o.winner == self@.defense->0 && o.loser == self@.attack->0 && o.image@
                == "public/catcoin_defense.png"@,
            !defense_won ==> o.winner == self@.attack->0 && o.loser == self@.defense->0 && o.image@
                == "public/catcoin_attack.png"@,
    {
        let d = match &self.defense {
            Some(p) => p.id,
            None => 0,
        };
        let a = match &self.attack {
            Some(p) => p.id,
            None => 0,
        };
        if defense_won {
            DuelOutcome { winner: d, loser: a, image: "public/catcoin_defense.png", grant: self.wager * 2 }
        } else {
            DuelOutcome { winner: a, loser: d, image: "public/catcoin_attack.png", grant: self.wager * 2 }
        }
    }

    /// Flips the coin and settles the duel (see [`Duel::settle`]); which side wins is
    /// left to chance.
    pub fn resolve(&self) -> (o: DuelOutcome)
        requires
            self@.ready(),
            2 * self@.wager <= u64::MAX,
        ensures
            o.grant == 2 * self@.wager,
            (o.winner == self@.defense->0 && o.loser == self@.attack->0) || (o.winner
                == self@.attack->0 && o.loser == self@.defense->0),
    {
        let defense_won = flip_coin();
        self.settle(defense_won)
    }
}

/// The announcement of a duel's result.
pub fn result_message(o: &DuelOutcome, wager: u64, coin: &str) -> (s: String)
    ensures
        s@ == duel_result_text(*o, wager, coin@),
{
    let mut s = mention_string(o.winner);
    s.append(" beat ");
    let l = mention_string(o.loser);
    s.append(l.as_str());
    s.append(" in a duel and stole **+");
    push_decimal(&mut s, wager);
    s.append("** ");
    s.append(coin);
    s.append(".");
    s
}

/// The notice sent when a player cannot pay the duel's wager after all.
pub fn duel_cheater_notice(user: u64) -> (s: String)
    ensures
        s@ == mention(user) + " tried to cheat the duel! aborting."@,
{
    let mut s = mention_string(user);
    s.append(" tried to cheat the duel! aborting.");
    s
}

} // verus!
