//! Playing cards and the 52-card deck.
use vstd::prelude::*;

use crate::rng::shuffle_cards;

verus! {

/// Card ranks from the lowest (two) to the highest (ace).
#[derive(Debug, Clone, Copy, PartialEq, Eq, PartialOrd, Ord, Hash, Structural)]
pub enum Rank {
    Two,
    Three,
    Four,
    Five,
    Six,
    Seven,
    Eight,
    Nine,
    Ten,
    Jack,
    Queen,
    King,
    Ace,
}

impl Rank {
    /// Position of the rank in the order two < three < ... < ace, from 0 to 12.
    pub open spec fn value(self) -> int {
        match self {
            Rank::Two => 0,
            Rank::Three => 1,
            Rank::Four => 2,
            Rank::Five => 3,
            Rank::Six => 4,
            Rank::Seven => 5,
            Rank::Eight => 6,
            Rank::Nine => 7,
            Rank::Ten => 8,
            Rank::Jack => 9,
            Rank::Queen => 10,
            Rank::King => 11,
            Rank::Ace => 12,
        }
    }

    /// The rank at position `v` (positions past twelve give the ace).
    pub open spec fn from_value(v: int) -> Rank {
        if v <= 0 {
            Rank::Two
        } else if v == 1 {
            Rank::Three
        } else if v == 2 {
            Rank::Four
        } else if v == 3 {
            Rank::Five
        } else if v == 4 {
            Rank::Six
        } else if v == 5 {
            Rank::Seven
        } else if v == 6 {
            Rank::Eight
        } else if v == 7 {
            Rank::Nine
        } else if v == 8 {
            Rank::Ten
        } else if v == 9 {
            Rank::Jack
        } else if v == 10 {
            Rank::Queen
        } else if v == 11 {
            Rank::King
        } else {
            Rank::Ace
        }
    }

    /// Numeric position of the rank.
    pub fn index(&self) -> (v: u8)
        ensures
            v == self.value(),
            v < 13,
    {
        match self {
            Rank::Two => 0,
            Rank::Three => 1,
            Rank::Four => 2,
            Rank::Five => 3,
            Rank::Six => 4,
            Rank::Seven => 5,
            Rank::Eight => 6,
            Rank::Nine => 7,
            Rank::Ten => 8,
            Rank::Jack => 9,
            Rank::Queen => 10,
            Rank::King => 11,
            Rank::Ace => 12,
        }
    }

    /// The rank at a numeric position.
    pub fn from_index(v: u8) -> (r: Rank)
        requires
            v < 13,
        ensures
            r.value() == v,
            r == Rank::from_value(v as int),
    {
        if v == 0 {
            Rank::Two
        } else if v == 1 {
            Rank::Three
        } else if v == 2 {
            Rank::Four
        } else if v == 3 {
            Rank::Five
        } else if v == 4 {
            Rank::Six
        } else if v == 5 {
            Rank::Seven
        } else if v == 6 {
            Rank::Eight
        } else if v == 7 {
            Rank::Nine
        } else if v == 8 {
            Rank::Ten
        } else if v == 9 {
            Rank::Jack
        } else if v == 10 {
            Rank::Queen
        } else if v == 11 {
            Rank::King
        } else {
            Rank::Ace
        }
    }

    /// The short label of the rank: "2" to "10", then "J", "Q", "K", "A".
    pub open spec fn label(self) -> Seq<char> {
        match self {
            Rank::Two => "2"@,
            Rank::Three => "3"@,
            Rank::Four => "4"@,
            Rank::Five => "5"@,
            Rank::Six => "6"@,
            Rank::Seven => "7"@,
            Rank::Eight => "8"@,
            Rank::Nine => "9"@,
            Rank::Ten => "10"@,
            Rank::Jack => "J"@,
            Rank::Queen => "Q"@,
            Rank::King => "K"@,
            Rank::Ace => "A"@,
        }
    }

    /// Text form of the rank, as shown in card selection menus.
    pub fn to_string(&self) -> (s: String)
        ensures
            s@ == self.label(),
    {
        let t = match self {
            Rank::Two => "2",
            Rank::Three => "3",
            Rank::Four => "4",
            Rank::Five => "5",
            Rank::Six => "6",
            Rank::Seven => "7",
            Rank::Eight => "8",
            Rank::Nine => "9",
            Rank::Ten => "10",
            Rank::Jack => "J",
            Rank::Queen => "Q",
            Rank::King => "K",
            Rank::Ace => "A",
        };
        t.to_owned()
    }

    /// The word used for the rank in emoji names.
    pub open spec fn emoji_word(self) -> Seq<char> {
        match self {
            Rank::Two => "2"@,
            Rank::Three => "3"@,
            Rank::Four => "4"@,
            Rank::Five => "5"@,
            Rank::Six => "6"@,
            Rank::Seven => "7"@,
            Rank::Eight => "8"@,
            Rank::Nine => "9"@,
            Rank::Ten => "10"@,
            Rank::Jack => "jack"@,
            Rank::Queen => "queen"@,
            Rank::King => "king"@,
            Rank::Ace => "ace"@,
        }
    }

    /// Name of the emoji that shows the rank: `{color}_{word}_top`, the color being
    /// "red" or "black".
    pub open spec fn emoji_key(self, is_red: bool) -> Seq<char> {
        (if is_red {
            "red"@
        } else {
            "black"@
        }) + "_"@ + self.emoji_word() + "_top"@
    }

    /// Builds the emoji name of [`Rank::emoji_key`].
    pub fn emoji_name(&self, is_red: bool) -> (s: String)
        ensures
            s@ == self.emoji_key(is_red),
    {
        let mut s = if is_red {
            String::from_str("red")
        } else {
            String::from_str("black")
        };
        s.append("_");
        let word = match self {
            Rank::Two => "2",
            Rank::Three => "3",
            Rank::Four => "4",
            Rank::Five => "5",
            Rank::Six => "6",
            Rank::Seven => "7",
            Rank::Eight => "8",
            Rank::Nine => "9",
            Rank::Ten => "10",
            Rank::Jack => "jack",
            Rank::Queen => "queen",
            Rank::King => "king",
            Rank::Ace => "ace",
        };
        s.append(word);
        s.append("_top");
        s
    }
}

/// The four french suits.
#[derive(Debug, Clone, Copy, PartialEq, Eq, Hash, Structural)]
pub enum Suit {
    Hearts,
    Diamonds,
    Clubs,
    Spades,
}

impl Suit {
    /// Position of the suit in deck order: hearts, diamonds, clubs, spades.
    pub open spec fn value(self) -> int {
        match self {
            Suit::Hearts => 0,
            Suit::Diamonds => 1,
            Suit::Clubs => 2,
            Suit::Spades => 3,
        }
    }

    /// The suit at position `v` in deck order (positions past three give spades).
    pub open spec fn from_value(v: int) -> Suit {
        if v <= 0 {
            Suit::Hearts
        } else if v == 1 {
            Suit::Diamonds
        } else if v == 2 {
            Suit::Clubs
        } else {
            Suit::Spades
        }
    }

    /// The suit at a numeric position in deck order.
    pub fn from_index(v: u8) -> (s: Suit)
        requires
            v < 4,
        ensures
            s == Suit::from_value(v as int),
            s.value() == v,
    {
        if v == 0 {
            Suit::Hearts
        } else if v == 1 {
            Suit::Diamonds
        } else if v == 2 {
            Suit::Clubs
        } else {
            Suit::Spades
        }
    }

    /// Hearts and diamonds are red.
    pub open spec fn red(self) -> bool {
        self is Hearts || self is Diamonds
    }

    /// Whether the suit is red (hearts and diamonds).
    pub fn is_red(&self) -> (r: bool)
        ensures
            r == self.red(),
    {
        match self {
            Suit::Hearts | Suit::Diamonds => true,
            _ => false,
        }
    }

    /// The lower-case name of the suit.
    pub open spec fn label(self) -> Seq<char> {
        match self {
            Suit::Hearts => "hearts"@,
            Suit::Diamonds => "diamonds"@,
            Suit::Clubs => "clubs"@,
            Suit::Spades => "spades"@,
        }
    }

    /// Text form of the suit, as shown in card selection menus.
    pub fn to_string(&self) -> (s: String)
        ensures
            s@ == self.label(),
    {
        let t = match self {
            Suit::Hearts => "hearts",
            Suit::Diamonds => "diamonds",
            Suit::Clubs => "clubs",
            Suit::Spades => "spades",
        };
        t.to_owned()
    }

    /// Name of the emoji that shows the suit.
    pub open spec fn emoji_key(self) -> Seq<char> {
        match self {
            Suit::Hearts => "heart_bottom"@,
            Suit::Diamonds => "diamond_bottom"@,
            Suit::Clubs => "club_bottom"@,
            Suit::Spades => "spade_bottom"@,
        }
    }

    /// Builds the emoji name of [`Suit::emoji_key`].
    pub fn emoji_name(&self) -> (s: &'static str)
        ensures
            s@ == self.emoji_key(),
    {
        match self {
            Suit::Hearts => "heart_bottom",
            Suit::Diamonds => "diamond_bottom",
            Suit::Clubs => "club_bottom",
            Suit::Spades => "spade_bottom",
        }
    }
}

/// A single playing card.
#[derive(Debug, Clone, Copy, PartialEq, Eq, Structural)]
pub struct Card {
    pub rank: Rank,
    pub suit: Suit,
}

impl Card {
    pub fn new(rank: Rank, suit: Suit) -> (c: Self)
        ensures
            c.rank == rank,
            c.suit == suit,
    {
        Self { rank, suit }
    }
}

/// The card at position `i` of a fresh deck: suits in the order hearts, diamonds,
/// clubs, spades, and within each suit the ranks from two up to ace.
pub open spec fn fresh_card(i: int) -> Card {
    Card { rank: Rank::from_value(i % 13), suit: Suit::from_value(i / 13) }
}

/// The 52 cards of a fresh deck, in order.
pub open spec fn fresh_deck() -> Seq<Card> {
    Seq::new(52, |i: int| fresh_card(i))
}

/// A pile of cards; cards are dealt from the end of the pile.
#[derive(Debug, Clone, PartialEq, Eq)]
pub struct Deck {
    cards: Vec<Card>,
}

impl View for Deck {
    type V = Seq<Card>;

    closed spec fn view(&self) -> Seq<Card> {
        self.cards@
    }
}

impl Deck {
    /// The full 52-card deck, unshuffled.
    pub fn new() -> (d: Self)
        ensures
            d@.len() == 52,
            forall|i: int| 0 <= i < 52 ==> d@[i] == fresh_card(i),
            d@ == fresh_deck(),
    {
        let mut cards: Vec<Card> = Vec::with_capacity(52);
        let mut i: u8 = 0;
        while i < 52
            invariant
                i <= 52,
                cards@.len() == i,
                forall|j: int| 0 <= j < i ==> cards@[j] == fresh_card(j),
            decreases 52 - i,
        {
            let rank = Rank::from_index(i % 13);
            let suit = Suit::from_index(i / 13);
            cards.push(Card::new(rank, suit));
            i = i + 1;
        }
        assert(cards@ =~= fresh_deck());
        Self { cards }
    }

    /// Number of cards left in the deck.
    pub fn len(&self) -> (n: usize)
        ensures
            n == self@.len(),
    {
        self.cards.len()
    }

    /// Puts the cards in a random order.
    pub fn shuffle(&mut self)
        ensures
            final(self)@.len() == old(self)@.len(),
            final(self)@.to_multiset() == old(self)@.to_multiset(),
    {
        shuffle_cards(&mut self.cards);
    }

    /// Takes the card at the end of the pile, if there is one.
    pub fn deal(&mut self) -> (c: Option<Card>)
        ensures
            old(self)@.len() == 0 ==> c is None && final(self)@ == old(self)@,
            old(self)@.len() > 0 ==> c == Some(old(self)@.last()) && final(self)@
                == old(self)@.drop_last(),
    {
        self.cards.pop()
    }
}

/// Every card of a fresh deck occurs once.
pub proof fn law_fresh_deck_distinct(i: int, j: int)
    requires
        0 <= i < 52,
        0 <= j < 52,
        i != j,
    ensures
        fresh_card(i) != fresh_card(j),
{
    assert(i == 13 * (i / 13) + i % 13) by (nonlinear_arith)
        requires
            0 <= i,
    ;
    assert(j == 13 * (j / 13) + j % 13) by (nonlinear_arith)
        requires
            0 <= j,
    ;
    assert(0 <= i / 13 < 4 && 0 <= j / 13 < 4) by (nonlinear_arith)
        requires
            0 <= i < 52,
            0 <= j < 52,
    ;
}

} // verus!
