use std::cmp::Ordering;

use girlpound::cards::{Card, Deck, Rank, Suit};
use girlpound::hand::{Hand, HandRank};

#[test]
fn test_hand_comparison() {
    // Royal flush
    let royal_flush = Hand::new([
        Card::new(Rank::Ace, Suit::Hearts),
        Card::new(Rank::King, Suit::Hearts),
        Card::new(Rank::Queen, Suit::Hearts),
        Card::new(Rank::Jack, Suit::Hearts),
        Card::new(Rank::Ten, Suit::Hearts),
    ]);

    // Straight flush
    let straight_flush = Hand::new([
        Card::new(Rank::Nine, Suit::Spades),
        Card::new(Rank::Eight, Suit::Spades),
        Card::new(Rank::Seven, Suit::Spades),
        Card::new(Rank::Six, Suit::Spades),
        Card::new(Rank::Five, Suit::Spades),
    ]);

    // Four of a kind
    let four_of_a_kind = Hand::new([
        Card::new(Rank::Ace, Suit::Hearts),
        Card::new(Rank::Ace, Suit::Diamonds),
        Card::new(Rank::Ace, Suit::Clubs),
        Card::new(Rank::Ace, Suit::Spades),
        Card::new(Rank::King, Suit::Hearts),
    ]);

    // Full house
    let full_house = Hand::new([
        Card::new(Rank::King, Suit::Hearts),
        Card::new(Rank::King, Suit::Diamonds),
        Card::new(Rank::King, Suit::Clubs),
        Card::new(Rank::Queen, Suit::Hearts),
        Card::new(Rank::Queen, Suit::Diamonds),
    ]);

    // Verify evaluations
    assert_eq!(royal_flush.evaluate().0, HandRank::RoyalFlush);
    assert_eq!(straight_flush.evaluate().0, HandRank::StraightFlush);
    assert_eq!(four_of_a_kind.evaluate().0, HandRank::FourOfAKind);
    assert_eq!(full_house.evaluate().0, HandRank::FullHouse);

    // Verify comparisons
    assert_eq!(royal_flush.compare(&straight_flush), Ordering::Greater);
    assert_eq!(straight_flush.compare(&four_of_a_kind), Ordering::Greater);
    assert_eq!(four_of_a_kind.compare(&full_house), Ordering::Greater);
}

fn hand(cards: [(Rank, Suit); 5]) -> Hand {
    Hand::new(cards.map(|(r, s)| Card::new(r, s)))
}

#[test]
fn wheel_is_a_straight_and_ranks_below_six_high() {
    let wheel = hand([
        (Rank::Ace, Suit::Hearts),
        (Rank::Two, Suit::Clubs),
        (Rank::Three, Suit::Spades),
        (Rank::Four, Suit::Diamonds),
        (Rank::Five, Suit::Hearts),
    ]);
    let (rank, tb) = wheel.evaluate();
    assert_eq!(rank, HandRank::Straight);
    assert_eq!(tb, vec![Rank::Ace, Rank::Five, Rank::Four, Rank::Three, Rank::Two]);
    let six_high = hand([
        (Rank::Two, Suit::Hearts),
        (Rank::Three, Suit::Clubs),
        (Rank::Four, Suit::Spades),
        (Rank::Five, Suit::Diamonds),
        (Rank::Six, Suit::Hearts),
    ]);
    assert_eq!(six_high.evaluate().0, HandRank::Straight);
    // the ace is the first tie breaker, so the wheel beats the six-high straight
    assert_eq!(wheel.compare(&six_high), Ordering::Greater);
    assert_eq!(six_high.compare(&wheel), Ordering::Less);
}

#[test]
fn every_category_is_recognised() {
    let cases = [
        (
            [
                (Rank::Two, Suit::Hearts),
                (Rank::Seven, Suit::Clubs),
                (Rank::Nine, Suit::Spades),
                (Rank::Jack, Suit::Diamonds),
                (Rank::King, Suit::Hearts),
            ],
            HandRank::HighCard,
        ),
        (
            [
                (Rank::Two, Suit::Hearts),
                (Rank::Two, Suit::Clubs),
                (Rank::Nine, Suit::Spades),
                (Rank::Jack, Suit::Diamonds),
                (Rank::King, Suit::Hearts),
            ],
            HandRank::OnePair,
        ),
        (
            [
                (Rank::Two, Suit::Hearts),
                (Rank::Two, Suit::Clubs),
                (Rank::Nine, Suit::Spades),
                (Rank::Nine, Suit::Diamonds),
                (Rank::King, Suit::Hearts),
            ],
            HandRank::TwoPair,
        ),
        (
            [
                (Rank::Two, Suit::Hearts),
                (Rank::Two, Suit::Clubs),
                (Rank::Two, Suit::Spades),
                (Rank::Nine, Suit::Diamonds),
                (Rank::King, Suit::Hearts),
            ],
            HandRank::ThreeOfAKind,
        ),
        (
            [
                (Rank::Two, Suit::Hearts),
                (Rank::Seven, Suit::Hearts),
                (Rank::Nine, Suit::Hearts),
                (Rank::Jack, Suit::Hearts),
                (Rank::King, Suit::Hearts),
            ],
            HandRank::Flush,
        ),
    ];
    for (cards, expected) in cases {
        assert_eq!(hand(cards).evaluate().0, expected);
    }
}

#[test]
fn tie_breakers_follow_group_size_then_rank() {
    let two_pair = hand([
        (Rank::King, Suit::Hearts),
        (Rank::Two, Suit::Clubs),
        (Rank::Nine, Suit::Spades),
        (Rank::Nine, Suit::Diamonds),
        (Rank::Two, Suit::Hearts),
    ]);
    assert_eq!(
        two_pair.evaluate().1,
        vec![Rank::Nine, Rank::Two, Rank::King]
    );
    let better_kicker = hand([
        (Rank::Ace, Suit::Hearts),
        (Rank::Two, Suit::Spades),
        (Rank::Nine, Suit::Hearts),
        (Rank::Nine, Suit::Clubs),
        (Rank::Two, Suit::Diamonds),
    ]);
    assert_eq!(better_kicker.compare(&two_pair), Ordering::Greater);
    assert_eq!(two_pair.compare(&two_pair.clone()), Ordering::Equal);
}

#[test]
fn new_hand_is_sorted_by_rank_descending() {
    let h = hand([
        (Rank::Three, Suit::Hearts),
        (Rank::Ace, Suit::Clubs),
        (Rank::Three, Suit::Spades),
        (Rank::Ten, Suit::Diamonds),
        (Rank::Queen, Suit::Hearts),
    ]);
    let ranks: Vec<Rank> = h.cards.iter().map(|c| c.rank).collect();
    assert_eq!(ranks, vec![Rank::Ace, Rank::Queen, Rank::Ten, Rank::Three, Rank::Three]);
    // equal ranks keep their order
    assert_eq!(h.cards[3].suit, Suit::Hearts);
    assert_eq!(h.cards[4].suit, Suit::Spades);
}

#[test]
fn fresh_deck_has_every_card_once() {
    let mut deck = Deck::new();
    assert_eq!(deck.len(), 52);
    let mut seen = std::collections::HashSet::new();
    while let Some(card) = deck.deal() {
        assert!(seen.insert((card.rank, card.suit)));
    }
    assert_eq!(seen.len(), 52);
    assert_eq!(deck.deal(), None);
}

#[test]
fn fresh_deck_deals_from_the_end() {
    let mut deck = Deck::new();
    assert_eq!(deck.deal(), Some(Card::new(Rank::Ace, Suit::Spades)));
    assert_eq!(deck.deal(), Some(Card::new(Rank::King, Suit::Spades)));
    assert_eq!(deck.len(), 50);
}

#[test]
fn shuffle_keeps_the_cards() {
    let mut deck = Deck::new();
    deck.shuffle();
    assert_eq!(deck.len(), 52);
    let mut seen = std::collections::HashSet::new();
    while let Some(card) = deck.deal() {
        seen.insert((card.rank, card.suit));
    }
    assert_eq!(seen.len(), 52);
}

#[test]
fn deal_hand_takes_five_sorted_cards() {
    let mut deck = Deck::new();
    let h = deck.deal_hand();
    assert_eq!(deck.len(), 47);
    let ranks: Vec<Rank> = h.cards.iter().map(|c| c.rank).collect();
    assert_eq!(ranks, vec![Rank::Ace, Rank::King, Rank::Queen, Rank::Jack, Rank::Ten]);
    assert_eq!(h.evaluate().0, HandRank::RoyalFlush);
}

#[test]
fn redraw_replaces_listed_cards_and_skips_bad_indices() {
    let mut deck = Deck::new();
    let mut h = hand([
        (Rank::Two, Suit::Hearts),
        (Rank::Two, Suit::Clubs),
        (Rank::Two, Suit::Spades),
        (Rank::Two, Suit::Diamonds),
        (Rank::Three, Suit::Hearts),
    ]);
    // sorted: three of hearts first, then the twos in their given order
    assert_eq!(h.cards[0], Card::new(Rank::Three, Suit::Hearts));
    h.redraw(&mut deck, &[4, 7, 0]);
    assert_eq!(deck.len(), 50);
    assert_eq!(h.cards[4], Card::new(Rank::Ace, Suit::Spades));
    assert_eq!(h.cards[0], Card::new(Rank::King, Suit::Spades));
    assert_eq!(h.cards[1], Card::new(Rank::Two, Suit::Hearts));
}

#[test]
fn labels() {
    assert_eq!(Rank::Ten.to_string(), "10");
    assert_eq!(Rank::Queen.to_string(), "Q");
    assert_eq!(Suit::Clubs.to_string(), "clubs");
    assert_eq!(HandRank::ThreeOfAKind.to_string(), "Three of a Kind");
    assert_eq!(Rank::Jack.emoji_name(true), "red_jack_top");
    assert_eq!(Rank::Seven.emoji_name(false), "black_7_top");
    assert_eq!(Suit::Diamonds.emoji_name(), "diamond_bottom");
    assert!(Suit::Hearts.is_red());
    assert!(!Suit::Spades.is_red());
}
