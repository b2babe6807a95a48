//! Five-card poker hands: ranking and comparison.
use vstd::prelude::*;

use std::cmp::Ordering;

use crate::cards::{Card, Deck, Rank};

verus! {

/// The cards of `s` whose rank is at position `v`, in their order in `s`.
pub open spec fn with_rank(s: Seq<Card>, v: int) -> Seq<Card>
    decreases s.len(),
{
    if s.len() == 0 {
        seq![]
    } else {
        with_rank(s.drop_last(), v) + if s.last().rank.value() == v {
            seq![s.last()]
        } else {
            seq![]
        }
    }
}

/// How many cards of `s` have the rank at position `v`.
pub open spec fn count_rank(s: Seq<Card>, v: int) -> nat {
    with_rank(s, v).len()
}

/// The cards of `s` with rank positions `v`, `v - 1`, ..., `0`: highest rank first,
/// cards of equal rank in their order in `s`.
pub open spec fn ranked_from(s: Seq<Card>, v: int) -> Seq<Card>
    decreases v + 1,
{
    if v < 0 {
        seq![]
    } else {
        with_rank(s, v) + ranked_from(s, v - 1)
    }
}

/// `s` sorted by rank, highest first; the sort is stable.
pub open spec fn sort_by_rank(s: Seq<Card>) -> Seq<Card> {
    ranked_from(s, 12)
}

/// How many cards of `s` have a rank position of at most `v`.
pub open spec fn count_at_most(s: Seq<Card>, v: int) -> nat
    decreases s.len(),
{
    if s.len() == 0 {
        0
    } else {
        count_at_most(s.drop_last(), v) + if s.last().rank.value() <= v {
            1nat
        } else {
            0nat
        }
    }
}

proof fn lemma_with_rank_split(s: Seq<Card>, v: int)
    ensures
        with_rank(s, v).len() + count_at_most(s, v - 1) == count_at_most(s, v),
    decreases s.len(),
{
    if s.len() > 0 {
        lemma_with_rank_split(s.drop_last(), v);
    }
}

proof fn lemma_ranked_from_len(s: Seq<Card>, v: int)
    requires
        v >= -1,
    ensures
        ranked_from(s, v).len() == count_at_most(s, v),
    decreases v + 1,
{
    if v < 0 {
        lemma_count_at_most_negative(s, v);
    } else {
        lemma_ranked_from_len(s, v - 1);
        lemma_with_rank_split(s, v);
    }
}

proof fn lemma_count_at_most_negative(s: Seq<Card>, v: int)
    requires
        v < 0,
    ensures
        count_at_most(s, v) == 0,
    decreases s.len(),
{
    if s.len() > 0 {
        lemma_count_at_most_negative(s.drop_last(), v);
    }
}

proof fn lemma_count_at_most_all(s: Seq<Card>)
    ensures
        count_at_most(s, 12) == s.len(),
    decreases s.len(),
{
    if s.len() > 0 {
        lemma_count_at_most_all(s.drop_last());
    }
}

/// Sorting by rank keeps the number of cards.
pub proof fn lemma_sort_by_rank_len(s: Seq<Card>)
    ensures
        sort_by_rank(s).len() == s.len(),
{
    lemma_ranked_from_len(s, 12);
    lemma_count_at_most_all(s);
}

proof fn lemma_with_rank_multiset(s: Seq<Card>, v: int)
    ensures
        forall|c: Card|
            #[trigger] with_rank(s, v).to_multiset().count(c) == if c.rank.value() == v {
                s.to_multiset().count(c)
            } else {
                0
            },
    decreases s.len(),
{
    broadcast use vstd::seq_lib::group_to_multiset_ensures;
    broadcast use vstd::multiset::group_multiset_axioms;

    if s.len() == 0 {
        assert(with_rank(s, v) =~= Seq::<Card>::empty());
        assert(s =~= Seq::<Card>::empty());
    } else {
        let d = s.drop_last();
        let x = s.last();
        lemma_with_rank_multiset(d, v);
        assert(s =~= d.push(x));
        if x.rank.value() == v {
            assert(with_rank(s, v) =~= with_rank(d, v).push(x));
        } else {
            assert(with_rank(s, v) =~= with_rank(d, v));
        }
    }
}

proof fn lemma_ranked_from_multiset(s: Seq<Card>, v: int)
    ensures
        forall|c: Card|
            #[trigger] ranked_from(s, v).to_multiset().count(c) == if c.rank.value() <= v {
                s.to_multiset().count(c)
            } else {
                0
            },
    decreases v + 1,
{
    broadcast use vstd::seq_lib::group_to_multiset_ensures;
    broadcast use vstd::multiset::group_multiset_axioms;

    if v < 0 {
        assert(ranked_from(s, v) =~= Seq::<Card>::empty());
        assert forall|c: Card| #[trigger] ranked_from(s, v).to_multiset().count(c) == (if c.rank.value() <= v {
            s.to_multiset().count(c)
        } else {
            0
        }) by {
            assert(c.rank.value() >= 0);
        }
    } else {
        lemma_ranked_from_multiset(s, v - 1);
        lemma_with_rank_multiset(s, v);
        vstd::seq_lib::lemma_multiset_commutative(with_rank(s, v), ranked_from(s, v - 1));
    }
}

/// Sorting by rank keeps the cards: each occurs as often as before.
pub proof fn law_sort_by_rank_permutes(s: Seq<Card>)
    ensures
        sort_by_rank(s).to_multiset() == s.to_multiset(),
{
    broadcast use vstd::multiset::group_multiset_axioms;

    lemma_ranked_from_multiset(s, 12);
    assert forall|c: Card| #[trigger] sort_by_rank(s).to_multiset().count(c) == s.to_multiset().count(c) by {
        assert(c.rank.value() <= 12);
    }
    assert(sort_by_rank(s).to_multiset() =~= s.to_multiset());
}

/// The keys that order tie breakers enumerate (count, rank) pairs: key `k` stands for
/// a count of `k / 13 + 1` cards of the rank at position `k % 13`.
pub open spec fn tie_breaker_item(s: Seq<Card>, key: int) -> Seq<Rank> {
    if count_rank(s, key % 13) == key / 13 + 1 {
        seq![Rank::from_value(key % 13)]
    } else {
        seq![]
    }
}

/// The ranks whose (count, rank) key lies in `lo..hi`, highest key first.
pub open spec fn tie_breakers_between(s: Seq<Card>, lo: int, hi: int) -> Seq<Rank>
    decreases hi - lo,
{
    if lo >= hi {
        seq![]
    } else {
        tie_breakers_between(s, lo + 1, hi) + tie_breaker_item(s, lo)
    }
}

/// The ranks that occur in `s`, each once, ordered by how many cards have the rank
/// (most first), then by rank (highest first).
pub open spec fn tie_breakers(s: Seq<Card>) -> Seq<Rank> {
    tie_breakers_between(s, 0, 65)
}

/// All cards share the suit of the first.
pub open spec fn is_flush(s: Seq<Card>) -> bool {
    forall|i: int| 0 <= i < s.len() ==> #[trigger] s[i].suit == s[0].suit
}

/// The five ranks at positions `m`, `m - 1`, ..., `m - 4` each occur exactly once.
pub open spec fn run_at(s: Seq<Card>, m: int) -> bool {
    forall|j: int| 0 <= j < 5 ==> #[trigger] count_rank(s, m - j) == 1
}

/// Ace, five, four, three and two each occur exactly once.
pub open spec fn is_wheel(s: Seq<Card>) -> bool {
    &&& count_rank(s, 12) == 1
    &&& count_rank(s, 3) == 1
    &&& count_rank(s, 2) == 1
    &&& count_rank(s, 1) == 1
    &&& count_rank(s, 0) == 1
}

/// Five consecutive ranks, the ace counting high (ten to ace) or low (ace to five).
pub open spec fn is_straight_cards(s: Seq<Card>) -> bool {
    (exists|m: int| 4 <= m <= 12 && #[trigger] run_at(s, m)) || is_wheel(s)
}

/// Poker hand categories from the weakest to the strongest.
#[derive(Debug, Clone, Copy, PartialEq, Eq, PartialOrd, Ord, Structural)]
pub enum HandRank {
    HighCard,
    OnePair,
    TwoPair,
    ThreeOfAKind,
    Straight,
    Flush,
    FullHouse,
    FourOfAKind,
    StraightFlush,
    RoyalFlush,
}

impl HandRank {
    /// Strength of the category, from 0 (high card) to 9 (royal flush).
    pub open spec fn value(self) -> int {
        match self {
            HandRank::HighCard => 0,
            HandRank::OnePair => 1,
            HandRank::TwoPair => 2,
            HandRank::ThreeOfAKind => 3,
            HandRank::Straight => 4,
            HandRank::Flush => 5,
            HandRank::FullHouse => 6,
            HandRank::FourOfAKind => 7,
            HandRank::StraightFlush => 8,
            HandRank::RoyalFlush => 9,
        }
    }

    /// Numeric strength of the category.
    pub fn index(&self) -> (v: u8)
        ensures
            v == self.value(),
    {
        match self {
            HandRank::HighCard => 0,
            HandRank::OnePair => 1,
            HandRank::TwoPair => 2,
            HandRank::ThreeOfAKind => 3,
            HandRank::Straight => 4,
            HandRank::Flush => 5,
            HandRank::FullHouse => 6,
            HandRank::FourOfAKind => 7,
            HandRank::StraightFlush => 8,
            HandRank::RoyalFlush => 9,
        }
    }

    /// The name of the category.
    pub open spec fn label(self) -> Seq<char> {
        match self {
            HandRank::HighCard => "High Card"@,
            HandRank::OnePair => "One Pair"@,
            HandRank::TwoPair => "Two Pair"@,
            HandRank::ThreeOfAKind => "Three of a Kind"@,
            HandRank::Straight => "Straight"@,
            HandRank::Flush => "Flush"@,
            HandRank::FullHouse => "Full House"@,
            HandRank::FourOfAKind => "Four of a Kind"@,
            HandRank::StraightFlush => "Straight Flush"@,
            HandRank::RoyalFlush => "Royal Flush"@,
        }
    }

    /// Text form of the category.
    pub fn to_string(&self) -> (s: String)
        ensures
            s@ == self.label(),
    {
        let t = match self {
            HandRank::HighCard => "High Card",
            HandRank::OnePair => "One Pair",
            HandRank::TwoPair => "Two Pair",
            HandRank::ThreeOfAKind => "Three of a Kind",
            HandRank::Straight => "Straight",
            HandRank::Flush => "Flush",
            HandRank::FullHouse => "Full House",
            HandRank::FourOfAKind => "Four of a Kind",
            HandRank::StraightFlush => "Straight Flush",
            HandRank::RoyalFlush => "Royal Flush",
        };
        t.to_owned()
    }
}

/// The category of a five-card hand. `c0` and `c1` are the counts of the first two
/// tie breakers (the largest and the second largest group of equal ranks).
pub open spec fn hand_rank_of(s: Seq<Card>) -> HandRank {
    let tb = tie_breakers(s);
    let c0 = if tb.len() > 0 {
        count_rank(s, tb[0].value())
    } else {
        0
    };
    let c1 = if tb.len() > 1 {
        count_rank(s, tb[1].value())
    } else {
        0
    };
    let sorted = sort_by_rank(s);
    let flush = is_flush(s);
    let straight = is_straight_cards(s);
    if straight && flush {
        if sorted[0].rank == Rank::Ace && sorted[4].rank == Rank::Ten {
            HandRank::RoyalFlush
        } else {
            HandRank::StraightFlush
        }
    } else if c0 == 4 {
        HandRank::FourOfAKind
    } else if c0 == 3 && c1 == 2 {
        HandRank::FullHouse
    } else if flush {
        HandRank::Flush
    } else if straight {
        HandRank::Straight
    } else if c0 == 3 {
        HandRank::ThreeOfAKind
    } else if c0 == 2 && c1 == 2 {
        HandRank::TwoPair
    } else if c0 == 2 {
        HandRank::OnePair
    } else {
        HandRank::HighCard
    }
}

/// Lexicographic comparison of two tie-breaker lists, stopping at the end of the
/// shorter one.
pub open spec fn compare_tie_breakers(a: Seq<Rank>, b: Seq<Rank>) -> Ordering
    decreases a.len(),
{
    if a.len() == 0 || b.len() == 0 {
        Ordering::Equal
    } else if a[0].value() > b[0].value() {
        Ordering::Greater
    } else if a[0].value() < b[0].value() {
        Ordering::Less
    } else {
        compare_tie_breakers(a.drop_first(), b.drop_first())
    }
}

/// How hand `a` compares to hand `b`: by category first, then by tie breakers.
pub open spec fn compare_hands(a: Seq<Card>, b: Seq<Card>) -> Ordering {
    let ra = hand_rank_of(a).value();
    let rb = hand_rank_of(b).value();
    if ra > rb {
        Ordering::Greater
    } else if ra < rb {
        Ordering::Less
    } else {
        compare_tie_breakers(tie_breakers(a), tie_breakers(b))
    }
}

/// The cards and deck after redrawing at `idx`: each index below five, while the
/// deck is not empty, gets the card from the end of the deck; other indices are
/// skipped.
pub open spec fn redraw_result(cards: Seq<Card>, deck: Seq<Card>, idx: Seq<usize>) -> (
    Seq<Card>,
    Seq<Card>,
)
    decreases idx.len(),
{
    if idx.len() == 0 {
        (cards, deck)
    } else if idx[0] < 5 && deck.len() > 0 {
        redraw_result(cards.update(idx[0] as int, deck.last()), deck.drop_last(), idx.drop_first())
    } else {
        redraw_result(cards, deck, idx.drop_first())
    }
}

/// The opposite of an ordering.
pub open spec fn flip(o: Ordering) -> Ordering {
    match o {
        Ordering::Less => Ordering::Greater,
        Ordering::Equal => Ordering::Equal,
        Ordering::Greater => Ordering::Less,
    }
}

proof fn lemma_tie_breakers_antisymmetric(a: Seq<Rank>, b: Seq<Rank>)
    ensures
        compare_tie_breakers(a, b) == flip(compare_tie_breakers(b, a)),
    decreases a.len(),
{
    if a.len() > 0 && b.len() > 0 && a[0].value() == b[0].value() {
        lemma_tie_breakers_antisymmetric(a.drop_first(), b.drop_first());
    }
}

proof fn lemma_tie_breakers_reflexive(a: Seq<Rank>)
    ensures
        compare_tie_breakers(a, a) == Ordering::Equal,
    decreases a.len(),
{
    if a.len() > 0 {
        lemma_tie_breakers_reflexive(a.drop_first());
    }
}

proof fn lemma_tie_breakers_transitive(a: Seq<Rank>, b: Seq<Rank>, c: Seq<Rank>)
    requires
        compare_tie_breakers(a, b) == Ordering::Greater,
        compare_tie_breakers(b, c) == Ordering::Greater,
    ensures
        compare_tie_breakers(a, c) == Ordering::Greater,
    decreases a.len(),
{
    if a[0].value() == b[0].value() && b[0].value() == c[0].value() {
        lemma_tie_breakers_transitive(a.drop_first(), b.drop_first(), c.drop_first());
    }
}

/// Comparing two hands the other way round gives the opposite result.
pub proof fn law_compare_antisymmetric(a: Hand, b: Hand)
    ensures
        compare_hands(a.cards@, b.cards@) == flip(compare_hands(b.cards@, a.cards@)),
{
    lemma_tie_breakers_antisymmetric(tie_breakers(a.cards@), tie_breakers(b.cards@));
}

/// A hand ties with itself.
pub proof fn law_compare_reflexive(a: Hand)
    ensures
        compare_hands(a.cards@, a.cards@) == Ordering::Equal,
{
    lemma_tie_breakers_reflexive(tie_breakers(a.cards@));
}

/// Beating is transitive: if `a` beats `b` and `b` beats `c`, then `a` beats `c`.
pub proof fn law_compare_transitive(a: Hand, b: Hand, c: Hand)
    requires
        compare_hands(a.cards@, b.cards@) == Ordering::Greater,
        compare_hands(b.cards@, c.cards@) == Ordering::Greater,
    ensures
        compare_hands(a.cards@, c.cards@) == Ordering::Greater,
{
    let (x, y, z) = (a.cards@, b.cards@, c.cards@);
    if hand_rank_of(x).value() == hand_rank_of(y).value() && hand_rank_of(y).value()
        == hand_rank_of(z).value() {
        lemma_tie_breakers_transitive(tie_breakers(x), tie_breakers(y), tie_breakers(z));
    }
}

/// The hand categories from the weakest to the strongest: high card, one pair, two
/// pair, three of a kind, straight, flush, full house, four of a kind, straight
/// flush, royal flush.
pub open spec fn categories() -> Seq<HandRank> {
    seq![
        HandRank::HighCard,
        HandRank::OnePair,
        HandRank::TwoPair,
        HandRank::ThreeOfAKind,
        HandRank::Straight,
        HandRank::Flush,
        HandRank::FullHouse,
        HandRank::FourOfAKind,
        HandRank::StraightFlush,
        HandRank::RoyalFlush,
    ]
}

/// A hand of a stronger category always beats a hand of a weaker one, whatever their
/// cards, in the order of [`categories`]: so a flush beats a straight, a full house
/// beats a flush, and so on.
pub proof fn law_higher_category_wins(a: Hand, b: Hand, i: int, j: int)
    requires
        0 <= i < j < 10,
        hand_rank_of(a.cards@) == categories()[j],
        hand_rank_of(b.cards@) == categories()[i],
    ensures
        compare_hands(a.cards@, b.cards@) == Ordering::Greater,
        compare_hands(b.cards@, a.cards@) == Ordering::Less,
{
    let c = categories();
    assert(c[0].value() == 0 && c[1].value() == 1 && c[2].value() == 2 && c[3].value() == 3);
    assert(c[4].value() == 4 && c[5].value() == 5 && c[6].value() == 6 && c[7].value() == 7);
    assert(c[8].value() == 8 && c[9].value() == 9);
    assert(forall|k: int| 0 <= k < 10 ==> #[trigger] c[k].value() == k);
}

/// What a hand's shape guarantees of its category: five cards of one suit are at
/// least a flush, five ranks in a row are at least a straight, and both together
/// are a straight flush or a royal flush.
pub proof fn law_category_floors(h: Hand)
    ensures
        is_flush(h.cards@) ==> !(hand_rank_of(h.cards@) is HighCard || hand_rank_of(h.cards@) is OnePair
            || hand_rank_of(h.cards@) is TwoPair || hand_rank_of(h.cards@) is ThreeOfAKind
            || hand_rank_of(h.cards@) is Straight),
        is_straight_cards(h.cards@) ==> !(hand_rank_of(h.cards@) is HighCard || hand_rank_of(h.cards@) is OnePair
            || hand_rank_of(h.cards@) is TwoPair || hand_rank_of(h.cards@) is ThreeOfAKind),
        is_flush(h.cards@) && is_straight_cards(h.cards@) ==> (hand_rank_of(h.cards@) is StraightFlush
            || hand_rank_of(h.cards@) is RoyalFlush),
{
}

proof fn lemma_first_difference_decides(a: Seq<Rank>, b: Seq<Rank>, k: int)
    requires
        0 <= k < a.len(),
        k < b.len(),
        forall|i: int| 0 <= i < k ==> #[trigger] a[i] == b[i],
        a[k].value() > b[k].value(),
    ensures
        compare_tie_breakers(a, b) == Ordering::Greater,
    decreases k,
{
    if k > 0 {
        assert(a[0] == b[0]);
        assert forall|i: int| 0 <= i < k - 1 implies #[trigger] a.drop_first()[i] == b.drop_first()[i] by {
            assert(a[i + 1] == b[i + 1]);
        }
        lemma_first_difference_decides(a.drop_first(), b.drop_first(), k - 1);
    }
}

/// Between two hands of the same category, the first rank where their tie breakers
/// differ decides: the hand with the higher rank there wins (a pair of kings beats
/// a pair of queens; with equal pairs, the higher kicker wins).
pub proof fn law_first_tie_breaker_difference_wins(a: Hand, b: Hand, k: int)
    requires
        hand_rank_of(a.cards@) == hand_rank_of(b.cards@),
        0 <= k < tie_breakers(a.cards@).len(),
        k < tie_breakers(b.cards@).len(),
        forall|i: int| 0 <= i < k ==> #[trigger] tie_breakers(a.cards@)[i] == tie_breakers(b.cards@)[i],
        tie_breakers(a.cards@)[k].value() > tie_breakers(b.cards@)[k].value(),
    ensures
        compare_hands(a.cards@, b.cards@) == Ordering::Greater,
        compare_hands(b.cards@, a.cards@) == Ordering::Less,
{
    lemma_first_difference_decides(tie_breakers(a.cards@), tie_breakers(b.cards@), k);
    lemma_tie_breakers_antisymmetric(tie_breakers(a.cards@), tie_breakers(b.cards@));
}

proof fn lemma_with_rank_add(a: Seq<Card>, b: Seq<Card>, v: int)
    ensures
        with_rank(a + b, v) == with_rank(a, v) + with_rank(b, v),
    decreases b.len(),
{
    if b.len() == 0 {
        assert(a + b =~= a);
        assert(with_rank(a, v) + with_rank(b, v) =~= with_rank(a, v));
    } else {
        assert((a + b).drop_last() =~= a + b.drop_last());
        lemma_with_rank_add(a, b.drop_last(), v);
        assert(with_rank(a + b, v) =~= with_rank(a, v) + with_rank(b, v));
    }
}

proof fn lemma_with_rank_twice(s: Seq<Card>, w: int, v: int)
    ensures
        with_rank(with_rank(s, w), v) == if v == w {
            with_rank(s, w)
        } else {
            seq![]
        },
    decreases s.len(),
{
    if s.len() > 0 {
        lemma_with_rank_twice(s.drop_last(), w, v);
        let last = if s.last().rank.value() == w {
            seq![s.last()]
        } else {
            seq![]
        };
        lemma_with_rank_add(with_rank(s.drop_last(), w), last, v);
        if s.last().rank.value() == w {
            let e = Seq::<Card>::empty();
            assert(with_rank(e, v) == e);
            assert(last.drop_last() =~= e);
            assert(last.last() == s.last());
            assert(with_rank(last, v) =~= (if v == w {
                last
            } else {
                seq![]
            }));
        } else {
            assert(with_rank(last, v) =~= Seq::<Card>::empty());
        }
        assert(with_rank(with_rank(s, w), v) =~= (if v == w {
            with_rank(s, w)
        } else {
            seq![]
        }));
    }
}

proof fn lemma_with_rank_out_of_range(s: Seq<Card>, v: int)
    requires
        v < 0 || v > 12,
    ensures
        with_rank(s, v) == Seq::<Card>::empty(),
    decreases s.len(),
{
    if s.len() > 0 {
        lemma_with_rank_out_of_range(s.drop_last(), v);
        assert(with_rank(s, v) =~= Seq::<Card>::empty());
    }
}

proof fn lemma_with_rank_ranked_from(s: Seq<Card>, u: int, v: int)
    requires
        u >= -1,
    ensures
        with_rank(ranked_from(s, u), v) == if 0 <= v <= u {
            with_rank(s, v)
        } else {
            seq![]
        },
    decreases u + 1,
{
    if u < 0 {
        assert(with_rank(ranked_from(s, u), v) =~= Seq::<Card>::empty());
    } else {
        lemma_with_rank_ranked_from(s, u - 1, v);
        lemma_with_rank_add(with_rank(s, u), ranked_from(s, u - 1), v);
        lemma_with_rank_twice(s, u, v);
        assert(with_rank(ranked_from(s, u), v) =~= (if 0 <= v <= u {
            with_rank(s, v)
        } else {
            seq![]
        }));
    }
}

proof fn lemma_sort_keeps_with_rank(s: Seq<Card>, v: int)
    ensures
        with_rank(sort_by_rank(s), v) == with_rank(s, v),
{
    lemma_with_rank_ranked_from(s, 12, v);
    if v < 0 || v > 12 {
        lemma_with_rank_out_of_range(s, v);
    }
}

proof fn lemma_ranked_from_same(a: Seq<Card>, b: Seq<Card>, u: int)
    requires
        u >= -1,
        forall|v: int| 0 <= v <= 12 ==> #[trigger] with_rank(a, v) == with_rank(b, v),
        u <= 12,
    ensures
        ranked_from(a, u) == ranked_from(b, u),
    decreases u + 1,
{
    if u >= 0 {
        lemma_ranked_from_same(a, b, u - 1);
    }
}

proof fn lemma_tie_breakers_same(a: Seq<Card>, b: Seq<Card>, lo: int)
    requires
        0 <= lo <= 65,
        forall|v: int| #[trigger] count_rank(a, v) == count_rank(b, v),
    ensures
        tie_breakers_between(a, lo, 65) == tie_breakers_between(b, lo, 65),
    decreases 65 - lo,
{
    if lo < 65 {
        lemma_tie_breakers_same(a, b, lo + 1);
        assert(count_rank(a, lo % 13) == count_rank(b, lo % 13));
    }
}

proof fn lemma_add_contains(a: Seq<Card>, b: Seq<Card>, x: Card)
    ensures
        (a + b).contains(x) <==> a.contains(x) || b.contains(x),
{
    if (a + b).contains(x) {
        let i = choose|i: int| 0 <= i < (a + b).len() && (a + b)[i] == x;
        if i < a.len() {
            assert(a[i] == x);
        } else {
            assert(b[i - a.len()] == x);
        }
    }
    if a.contains(x) {
        let i = choose|i: int| 0 <= i < a.len() && a[i] == x;
        assert((a + b)[i] == x);
    }
    if b.contains(x) {
        let i = choose|i: int| 0 <= i < b.len() && b[i] == x;
        assert((a + b)[i + a.len()] == x);
    }
}

proof fn lemma_with_rank_contains(s: Seq<Card>, v: int, x: Card)
    ensures
        with_rank(s, v).contains(x) <==> s.contains(x) && x.rank.value() == v,
    decreases s.len(),
{
    if s.len() > 0 {
        let init = s.drop_last();
        let last = seq![s.last()];
        lemma_with_rank_contains(init, v, x);
        assert(s =~= init + last);
        lemma_add_contains(init, last, x);
        let tail = if s.last().rank.value() == v {
            last
        } else {
            seq![]
        };
        lemma_add_contains(with_rank(init, v), tail, x);
        assert(last.contains(x) <==> x == s.last()) by {
            if x == s.last() {
                assert(last[0] == x);
            }
        }
        assert(!Seq::<Card>::empty().contains(x));
    }
}

proof fn lemma_ranked_from_contains(s: Seq<Card>, u: int, x: Card)
    requires
        u >= -1,
    ensures
        ranked_from(s, u).contains(x) <==> s.contains(x) && 0 <= x.rank.value() <= u,
    decreases u + 1,
{
    if u >= 0 {
        lemma_ranked_from_contains(s, u - 1, x);
        lemma_with_rank_contains(s, u, x);
        lemma_add_contains(with_rank(s, u), ranked_from(s, u - 1), x);
    } else {
        assert(!Seq::<Card>::empty().contains(x));
    }
}

proof fn lemma_sort_same_elements(s: Seq<Card>, x: Card)
    ensures
        sort_by_rank(s).contains(x) <==> s.contains(x),
{
    lemma_ranked_from_contains(s, 12, x);
}

/// Sorting a hand by rank does not change how it evaluates: the category and the
/// tie breakers of the sorted cards are those of the cards in any order.
pub proof fn law_sort_keeps_evaluation(cards: [Card; 5])
    ensures
        hand_rank_of(sort_by_rank(cards@)) == hand_rank_of(cards@),
        tie_breakers(sort_by_rank(cards@)) == tie_breakers(cards@),
{
    let s = cards@;
    let t = sort_by_rank(s);
    lemma_sort_by_rank_len(s);
    assert forall|v: int| #[trigger] count_rank(t, v) == count_rank(s, v) by {
        lemma_sort_keeps_with_rank(s, v);
    }
    lemma_tie_breakers_same(t, s, 0);
    assert forall|v: int| 0 <= v <= 12 implies #[trigger] with_rank(t, v) == with_rank(s, v) by {
        lemma_sort_keeps_with_rank(s, v);
    }
    lemma_ranked_from_same(t, s, 12);
    assert(is_straight_cards(t) == is_straight_cards(s)) by {
        if is_wheel(s) {
            assert(is_wheel(t));
        }
        if is_wheel(t) {
            assert(is_wheel(s));
        }
        if exists|m: int| 4 <= m <= 12 && #[trigger] run_at(s, m) {
            let m = choose|m: int| 4 <= m <= 12 && #[trigger] run_at(s, m);
            assert(run_at(t, m));
        }
        if exists|m: int| 4 <= m <= 12 && #[trigger] run_at(t, m) {
            let m = choose|m: int| 4 <= m <= 12 && #[trigger] run_at(t, m);
            assert forall|j: int| 0 <= j < 5 implies #[trigger] count_rank(s, m - j) == 1 by {
                assert(count_rank(t, m - j) == 1);
            }
            assert(run_at(s, m));
        }
    }
    assert(is_flush(t) == is_flush(s)) by {
        assert(s.contains(s[0]));
        assert(t.contains(t[0]));
        lemma_sort_same_elements(s, s[0]);
        lemma_sort_same_elements(s, t[0]);
        if is_flush(s) {
            assert forall|i: int| 0 <= i < t.len() implies #[trigger] t[i].suit == t[0].suit by {
                assert(t.contains(t[i]));
                lemma_sort_same_elements(s, t[i]);
                let j = choose|j: int| 0 <= j < s.len() && s[j] == t[i];
                assert(s[j].suit == s[0].suit);
                let k = choose|k: int| 0 <= k < s.len() && s[k] == t[0];
                assert(s[k].suit == s[0].suit);
            }
        }
        if is_flush(t) {
            assert forall|i: int| 0 <= i < s.len() implies #[trigger] s[i].suit == s[0].suit by {
                assert(s.contains(s[i]));
                lemma_sort_same_elements(s, s[i]);
                let j = choose|j: int| 0 <= j < t.len() && t[j] == s[i];
                assert(t[j].suit == t[0].suit);
                let k = choose|k: int| 0 <= k < t.len() && t[k] == s[0];
                assert(t[k].suit == t[0].suit);
            }
        }
    }
}

/// A poker hand of five cards.
#[derive(Debug, Clone, Copy, PartialEq, Eq)]
pub struct Hand {
    pub cards: [Card; 5],
}

/// Counts the cards of each rank.
fn rank_counts(cards: &[Card; 5]) -> (c: Vec<u8>)
    ensures
        c@.len() == 13,
        forall|v: int| 0 <= v < 13 ==> #[trigger] c@[v] == count_rank(cards@, v),
{
    let ghost s = cards@;
    let mut c: Vec<u8> = Vec::new();
    let mut v: u8 = 0;
    while v < 13
        invariant
            v <= 13,
            s == cards@,
            c@.len() == v,
            forall|w: int| 0 <= w < v ==> #[trigger] c@[w] == count_rank(s, w),
        decreases 13 - v,
    {
        let mut n: u8 = 0;
        let mut i: usize = 0;
        while i < 5
            invariant
                i <= 5,
                v < 13,
                s == cards@,
                s.len() == 5,
                n == with_rank(s.take(i as int), v as int).len(),
                n <= i,
            decreases 5 - i,
        {
            assert(s.take(i + 1).drop_last() =~= s.take(i as int));
            if cards[i].rank.index() == v {
                n = n + 1;
            }
            i = i + 1;
        }
        assert(s.take(5) =~= s);
        c.push(n);
        v = v + 1;
    }
    c
}

/// Sorts five cards by rank, highest first, keeping the order of equal ranks.
fn sort_cards(cards: [Card; 5]) -> (r: [Card; 5])
    ensures
        r@ == sort_by_rank(cards@),
{
    let ghost s = cards@;
    let mut out: Vec<Card> = Vec::new();
    let mut v: i8 = 12;
    assert(out@ + ranked_from(s, 12) =~= ranked_from(s, 12));
    while v >= 0
        invariant
            -1 <= v <= 12,
            s == cards@,
            s.len() == 5,
            out@ + ranked_from(s, v as int) == ranked_from(s, 12),
        decreases v + 1,
    {
        let ghost before = out@;
        let mut i: usize = 0;
        while i < 5
            invariant
                i <= 5,
                0 <= v <= 12,
                s == cards@,
                s.len() == 5,
                out@ == before + with_rank(s.take(i as int), v as int),
            decreases 5 - i,
        {
            assert(s.take(i + 1).drop_last() =~= s.take(i as int));
            if cards[i].rank.index() as i8 == v {
                out.push(cards[i]);
            }
            i = i + 1;
            assert(out@ =~= before + with_rank(s.take(i as int), v as int));
        }
        assert(s.take(5) =~= s);
        assert(ranked_from(s, v as int) == with_rank(s, v as int) + ranked_from(s, v - 1));
        assert(out@ + ranked_from(s, v - 1) =~= before + ranked_from(s, v as int));
        v = v - 1;
    }
    assert(out@ =~= ranked_from(s, 12));
    proof {
        lemma_sort_by_rank_len(s);
    }
    let r = [out[0], out[1], out[2], out[3], out[4]];
    assert(r@ =~= out@);
    r
}

impl Hand {
    /// A hand of the given cards, sorted by rank, highest first.
    pub fn new(cards: [Card; 5]) -> (h: Self)
        ensures
            h.cards@ == sort_by_rank(cards@),
    {
        Self { cards: sort_cards(cards) }
    }

    /// Sorts the cards by rank, highest first, keeping the order of equal ranks.
    pub fn sort(&mut self)
        ensures
            final(self).cards@ == sort_by_rank(old(self).cards@),
    {
        self.cards = sort_cards(self.cards);
    }

    /// Whether the five ranks are consecutive (an ace may also stand below the two).
    fn is_straight(&self) -> (b: bool)
        ensures
            b == is_straight_cards(self.cards@),
    {
        let ghost s = self.cards@;
        let c = rank_counts(&self.cards);
        let mut m: usize = 4;
        while m < 13
            invariant
                4 <= m <= 13,
                s == self.cards@,
                c@.len() == 13,
                forall|v: int| 0 <= v < 13 ==> #[trigger] c@[v] == count_rank(s, v),
                forall|m2: int| 4 <= m2 < m ==> !#[trigger] run_at(s, m2),
            decreases 13 - m,
        {
            if c[m] == 1 && c[m - 1] == 1 && c[m - 2] == 1 && c[m - 3] == 1 && c[m - 4] == 1 {
                assert(run_at(s, m as int)) by {
                    assert forall|j: int| 0 <= j < 5 implies #[trigger] count_rank(s, m - j)
                        == 1 by {
                        assert(c@[m - j] == count_rank(s, m - j));
                    }
                }
                return true;
            }
            assert(!run_at(s, m as int)) by {
                if c@[m as int] != 1 {
                    assert(count_rank(s, m - 0) != 1);
                } else if c@[m - 1] != 1 {
                    assert(count_rank(s, m - 1) != 1);
                } else if c@[m - 2] != 1 {
                    assert(count_rank(s, m - 2) != 1);
                } else if c@[m - 3] != 1 {
                    assert(count_rank(s, m - 3) != 1);
                } else {
                    assert(count_rank(s, m - 4) != 1);
                }
            }
            m = m + 1;
        }
        c[12] == 1 && c[3] == 1 && c[2] == 1 && c[1] == 1 && c[0] == 1
    }

    /// The category of the hand and its tie breakers: the ranks that occur, each
    /// once, ordered by how often they occur and then by rank, both descending.
    pub fn evaluate(&self) -> (r: (HandRank, Vec<Rank>))
        ensures
            r.0 == hand_rank_of(self.cards@),
            r.1@ == tie_breakers(self.cards@),
    {
        let ghost s = self.cards@;
        let sorted = sort_cards(self.cards);
        proof {
            lemma_sort_by_rank_len(s);
        }
        let cards = &self.cards;
        let flush = cards[0].suit == cards[1].suit && cards[1].suit == cards[2].suit
            && cards[2].suit == cards[3].suit && cards[3].suit == cards[4].suit;
        assert(flush == is_flush(s)) by {
            if !flush {
                if cards[0].suit != cards[1].suit {
                    assert(s[1].suit != s[0].suit);
                } else if cards[1].suit != cards[2].suit {
                    assert(s[2].suit != s[0].suit);
                } else if cards[2].suit != cards[3].suit {
                    assert(s[3].suit != s[0].suit);
                } else {
                    assert(s[4].suit != s[0].suit);
                }
            }
        }
        let straight = self.is_straight();
        let counts = rank_counts(&self.cards);
        let mut tb: Vec<Rank> = Vec::new();
        let mut k: usize = 65;
        while k > 0
            invariant
                k <= 65,
                s == self.cards@,
                counts@.len() == 13,
                forall|v: int| 0 <= v < 13 ==> #[trigger] counts@[v] == count_rank(s, v),
                tb@ == tie_breakers_between(s, k as int, 65),
            decreases k,
        {
            let key = k - 1;
            let r = key % 13;
            let n = key / 13 + 1;
            if counts[r] as usize == n {
                tb.push(Rank::from_index(r as u8));
            }
            assert(tb@ =~= tie_breakers_between(s, key as int, 65));
            k = key;
        }
        let c0: u8 = if tb.len() > 0 {
            counts[tb[0].index() as usize]
        } else {
            0
        };
        let c1: u8 = if tb.len() > 1 {
            counts[tb[1].index() as usize]
        } else {
            0
        };
        let hand_rank = if straight && flush {
            if sorted[0].rank == Rank::Ace && sorted[4].rank == Rank::Ten {
                HandRank::RoyalFlush
            } else {
                HandRank::StraightFlush
            }
        } else if c0 == 4 {
            HandRank::FourOfAKind
        } else if c0 == 3 && c1 == 2 {
            HandRank::FullHouse
        } else if flush {
            HandRank::Flush
        } else if straight {
            HandRank::Straight
        } else if c0 == 3 {
            HandRank::ThreeOfAKind
        } else if c0 == 2 && c1 == 2 {
            HandRank::TwoPair
        } else if c0 == 2 {
            HandRank::OnePair
        } else {
            HandRank::HighCard
        };
        (hand_rank, tb)
    }

    /// Compares this hand with another: the stronger category wins; within a
    /// category the tie breakers decide, in order.
    pub fn compare(&self, other: &Hand) -> (o: Ordering)
        ensures
            o == compare_hands(self.cards@, other.cards@),
    {
        let (own_rank, own_tb) = self.evaluate();
        let (other_rank, other_tb) = other.evaluate();
        let a = own_rank.index();
        let b = other_rank.index();
        if a > b {
            return Ordering::Greater;
        }
        if a < b {
            return Ordering::Less;
        }
        let n = if own_tb.len() < other_tb.len() {
            own_tb.len()
        } else {
            other_tb.len()
        };
        let mut i: usize = 0;
        assert(own_tb@.skip(0) =~= own_tb@);
        assert(other_tb@.skip(0) =~= other_tb@);
        while i < n
            invariant
                i <= n,
                n <= own_tb@.len(),
                n <= other_tb@.len(),
                n == own_tb@.len() || n == other_tb@.len(),
                compare_hands(self.cards@, other.cards@) == compare_tie_breakers(own_tb@, other_tb@),
                compare_tie_breakers(own_tb@, other_tb@) == compare_tie_breakers(
                    own_tb@.skip(i + 0),
                    other_tb@.skip(i + 0),
                ),
            decreases n - i,
        {
            let x = own_tb[i].index();
            let y = other_tb[i].index();
            assert(own_tb@.skip(i + 0)[0] == own_tb@[i + 0]);
            assert(other_tb@.skip(i + 0)[0] == other_tb@[i + 0]);
            if x > y {
                return Ordering::Greater;
            }
            if x < y {
                return Ordering::Less;
            }
            assert(own_tb@.skip(i + 0).drop_first() =~= own_tb@.skip(i + 1));
            assert(other_tb@.skip(i + 0).drop_first() =~= other_tb@.skip(i + 1));
            i = i + 1;
        }
        Ordering::Equal
    }

    /// Replaces the cards at the given indices with cards dealt from the deck.
    /// Indices of five or more are skipped, and so is every index once the deck is
    /// empty.
    pub fn redraw(&mut self, deck: &mut Deck, indices: &[usize])
        ensures
            (final(self).cards@, final(deck)@) == redraw_result(
                old(self).cards@,
                old(deck)@,
                indices@,
            ),
    {
        let ghost goal = redraw_result(self.cards@, deck@, indices@);
        let mut i: usize = 0;
        assert(indices@.skip(0) =~= indices@);
        while i < indices.len()
            invariant
                i <= indices@.len(),
                goal == redraw_result(self.cards@, deck@, indices@.skip(i as int)),
            decreases indices@.len() - i,
        {
            let idx = indices[i];
            assert(indices@.skip(i as int).drop_first() =~= indices@.skip(i + 1));
            if idx < 5 {
                if let Some(new_card) = deck.deal() {
                    self.cards[idx] = new_card;
                }
            }
            i = i + 1;
        }
    }
}

impl Deck {
    /// Deals five cards from the end of the deck into a hand sorted by rank.
    pub fn deal_hand(&mut self) -> (h: Hand)
        requires
            old(self)@.len() >= 5,
        ensures
            final(self)@ == old(self)@.take(old(self)@.len() - 5),
            h.cards@ == sort_by_rank(old(self)@.skip(old(self)@.len() - 5).reverse()),
    {
        let ghost d = self@;
        let c0 = self.deal().unwrap();
        let c1 = self.deal().unwrap();
        let c2 = self.deal().unwrap();
        let c3 = self.deal().unwrap();
        let c4 = self.deal().unwrap();
        let cards = [c0, c1, c2, c3, c4];
        assert(self@ =~= d.take(d.len() - 5));
        assert(cards@ =~= d.skip(d.len() - 5).reverse());
        Hand::new(cards)
    }
}

} // verus!
