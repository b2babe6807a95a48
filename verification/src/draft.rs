//! Picking pug teams: two captains take turns picking players from a voice channel.
use vstd::prelude::*;

use crate::rng::flip_coin;
use crate::text::{decimal, push_decimal};

verus! {

/// `s` without any occurrence of `id` (`Vec::retain`).
pub open spec fn without(s: Seq<u64>, id: u64) -> Seq<u64>
    decreases s.len(),
{
    if s.len() == 0 {
        s
    } else if s.last() == id {
        without(s.drop_last(), id)
    } else {
        without(s.drop_last(), id).push(s.last())
    }
}

/// No player occurs twice.
pub open spec fn distinct(s: Seq<u64>) -> bool {
    forall|i: int, j: int| 0 <= i < j < s.len() ==> #[trigger] s[i] != #[trigger] s[j]
}

/// Removes every occurrence of `id` (see [`without`]).
pub fn retain_without(v: &Vec<u64>, id: u64) -> (r: Vec<u64>)
    ensures
        r@ == without(v@, id),
{
    let mut r: Vec<u64> = Vec::new();
    let mut i: usize = 0;
    while i < v.len()
        invariant
            i <= v@.len(),
            r@ == without(v@.take(i as int), id),
        decreases v@.len() - i,
    {
        assert(v@.take(i + 1).drop_last() =~= v@.take(i as int));
        if v[i] != id {
            r.push(v[i]);
        }
        i = i + 1;
    }
    assert(v@.take(v@.len() as int) =~= v@);
    r
}

/// The teams as plain values: the players not picked yet, the two teams (captain
/// first), and whether red picks next.
pub struct DraftView {
    pub remaining: Seq<u64>,
    pub red: Seq<u64>,
    pub blu: Seq<u64>,
    pub pick_red: bool,
}

/// Two teams being picked.
pub struct Draft {
    remaining: Vec<u64>,
    red: Vec<u64>,
    blu: Vec<u64>,
    pick_red: bool,
}

impl View for Draft {
    type V = DraftView;

    closed spec fn view(&self) -> DraftView {
        DraftView { remaining: self.remaining@, red: self.red@, blu: self.blu@, pick_red: self.pick_red }
    }
}

/// The answer when the voice channel holds fewer than two people.
pub const TOO_FEW_FOR_CAPTAINS: &'static str = "Must be at least 2 people in the VC to be captains!";

/// Whether a draft can start with the members of the voice channel: `None` when
/// there are at least two of them to be captains, else the answer to give.
pub fn draft_refusal(members: &Vec<u64>) -> (r: Option<&'static str>)
    ensures
        members@.len() < 2 ==> r == Some(TOO_FEW_FOR_CAPTAINS),
        members@.len() >= 2 ==> r is None,
{
    if members.len() < 2 {
        Some(TOO_FEW_FOR_CAPTAINS)
    } else {
        None
    }
}

/// The answer to someone who picks in another's turn.
pub const NOT_YOUR_PICK: &'static str = "Not you!! >_<";

impl Draft {
    /// The draft once both captains are chosen: the captains leave the players to be
    /// picked, each leads a team, and `red_first` says who picks first.
    pub fn new(members: &Vec<u64>, red_captain: u64, blu_captain: u64, red_first: bool) -> (d: Self)
        ensures
            d@ == (DraftView {
                remaining: without(without(members@, red_captain), blu_captain),
                red: seq![red_captain],
                blu: seq![blu_captain],
                pick_red: red_first,
            }),
    {
        let a = retain_without(members, red_captain);
        let remaining = retain_without(&a, blu_captain);
        let mut red = Vec::new();
        red.push(red_captain);
        let mut blu = Vec::new();
        blu.push(blu_captain);
        let d = Draft { remaining, red, blu, pick_red: red_first };
        assert(d@.red =~= seq![red_captain]);
        assert(d@.blu =~= seq![blu_captain]);
        d
    }

    /// The draft once both captains are chosen (see [`Draft::new`]), with the captain
    /// who picks first drawn by a coin flip; which one is left to chance.
    pub fn start(members: &Vec<u64>, red_captain: u64, blu_captain: u64) -> (d: Self)
        ensures
            d@.remaining == without(without(members@, red_captain), blu_captain),
            d@.red == seq![red_captain],
            d@.blu == seq![blu_captain],
    {
        let red_first = flip_coin();
        Draft::new(members, red_captain, blu_captain, red_first)
    }

    /// Every player has been picked.
    pub fn is_done(&self) -> (b: bool)
        ensures
            b == (self@.remaining.len() == 0),
    {
        self.remaining.len() == 0
    }

    /// The captain whose turn it is.
    pub fn captain_to_pick(&self) -> (c: u64)
        requires
            self@.red.len() > 0 && self@.blu.len() > 0,
        ensures
            c == if self@.pick_red {
                self@.red[0]
            } else {
                self@.blu[0]
            },
    {
        if self.pick_red {
            self.red[0]
        } else {
            self.blu[0]
        }
    }

    /// The players not picked yet.
    pub fn remaining(&self) -> (v: &Vec<u64>)
        ensures
            v@ == self@.remaining,
    {
        &self.remaining
    }

    /// The two teams, red first.
    pub fn teams(&self) -> (t: (&Vec<u64>, &Vec<u64>))
        ensures
            t.0@ == self@.red,
            t.1@ == self@.blu,
    {
        (&self.red, &self.blu)
    }

    /// The captain whose turn it is picks `id`: they leave the players to be picked,
    /// join that captain's team, and the other captain picks next.
    pub fn pick(&mut self, id: u64)
        ensures
            final(self)@ == (DraftView {
                remaining: without(old(self)@.remaining, id),
                red: if old(self)@.pick_red {
                    old(self)@.red.push(id)
                } else {
                    old(self)@.red
                },
                blu: if old(self)@.pick_red {
                    old(self)@.blu
                } else {
                    old(self)@.blu.push(id)
                },
                pick_red: !old(self)@.pick_red,
            }),
    {
        self.remaining = retain_without(&self.remaining, id);
        if self.pick_red {
            self.red.push(id);
        } else {
            self.blu.push(id);
        }
        self.pick_red = !self.pick_red;
    }
}

proof fn lemma_without_missing(s: Seq<u64>, id: u64)
    requires
        !s.contains(id),
    ensures
        without(s, id) == s,
    decreases s.len(),
{
    if s.len() > 0 {
        assert(!s.drop_last().contains(id)) by {
            if s.drop_last().contains(id) {
                let k = choose|k: int| 0 <= k < s.drop_last().len() && s.drop_last()[k] == id;
                assert(s[k] == id);
            }
        }
        lemma_without_missing(s.drop_last(), id);
        assert(s.last() != id) by {
            if s.last() == id {
                assert(s[s.len() - 1] == id);
            }
        }
        assert(s.drop_last().push(s.last()) =~= s);
    }
}

proof fn lemma_without_one(s: Seq<u64>, id: u64)
    requires
        distinct(s),
        s.contains(id),
    ensures
        without(s, id).to_multiset() == s.to_multiset().remove(id),
        distinct(without(s, id)),
        forall|x: u64| #[trigger] without(s, id).contains(x) <==> s.contains(x) && x != id,
    decreases s.len(),
{
    broadcast use vstd::multiset::group_multiset_axioms;
    let t = s.drop_last();
    t.to_multiset_ensures();
    assert(s =~= t.push(s.last()));
    assert(distinct(t));
    if s.last() == id {
        assert(!t.contains(id)) by {
            if t.contains(id) {
                let k = choose|k: int| 0 <= k < t.len() && t[k] == id;
                assert(s[k] == s[s.len() - 1]);
            }
        }
        lemma_without_missing(t, id);
        assert(t.to_multiset().insert(id).remove(id) =~= t.to_multiset());
        assert forall|x: u64| #[trigger] without(s, id).contains(x) <==> s.contains(x) && x != id by {
            if s.contains(x) && x != id {
                let k = choose|k: int| 0 <= k < s.len() && s[k] == x;
                assert(t[k] == x);
            }
        }
    } else {
        assert(t.contains(id)) by {
            let k = choose|k: int| 0 <= k < s.len() && s[k] == id;
            assert(t[k] == id);
        }
        lemma_without_one(t, id);
        let w = without(t, id);
        w.to_multiset_ensures();
        assert(without(s, id) == w.push(s.last()));
        assert(w.push(s.last()).to_multiset() =~= t.to_multiset().insert(s.last()).remove(id));
        assert(!w.contains(s.last())) by {
            if w.contains(s.last()) {
                assert(t.contains(s.last()));
                let k = choose|k: int| 0 <= k < t.len() && t[k] == s.last();
                assert(s[k] == s[s.len() - 1]);
            }
        }
        assert(distinct(w.push(s.last()))) by {
            assert forall|i: int, j: int| 0 <= i < j < w.len() + 1 implies #[trigger] w.push(s.last())[i]
                != #[trigger] w.push(s.last())[j] by {
                if j == w.len() {
                    assert(w.contains(w[i]));
                }
            }
        }
        assert forall|x: u64| #[trigger] without(s, id).contains(x) <==> s.contains(x) && x != id by {
            if s.contains(x) && x != id {
                let k = choose|k: int| 0 <= k < s.len() && s[k] == x;
                if k < t.len() {
                    assert(t[k] == x);
                    assert(w.contains(x));
                    let m = choose|m: int| 0 <= m < w.len() && w[m] == x;
                    assert(w.push(s.last())[m] == x);
                } else {
                    assert(w.push(s.last())[w.len() as int] == x);
                }
            }
            if without(s, id).contains(x) {
                let k = choose|k: int| 0 <= k < w.len() + 1 && w.push(s.last())[k] == x;
                if k < w.len() {
                    assert(w.contains(x));
                    let m = choose|m: int| 0 <= m < t.len() && t[m] == x;
                    assert(s[m] == x);
                } else {
                    assert(s[s.len() - 1] == x);
                }
            }
        }
    }
}

/// Picking a player who is still to be picked moves them into a team: nobody is lost
/// or added, and nobody is in two places, as long as nobody was twice to begin with.
pub proof fn law_pick_keeps_everyone(d: DraftView, id: u64)
    requires
        distinct(d.remaining + d.red + d.blu),
        d.remaining.contains(id),
    ensures
        ({
            let e = DraftView {
                remaining: without(d.remaining, id),
                red: if d.pick_red {
                    d.red.push(id)
                } else {
                    d.red
                },
                blu: if d.pick_red {
                    d.blu
                } else {
                    d.blu.push(id)
                },
                pick_red: !d.pick_red,
            };
            &&& (e.remaining + e.red + e.blu).to_multiset() == (d.remaining + d.red + d.blu).to_multiset()
            &&& e.remaining.len() + 1 == d.remaining.len()
        }),
{
    broadcast use vstd::multiset::group_multiset_axioms;
    let all = d.remaining + d.red + d.blu;
    assert(distinct(d.remaining)) by {
        assert forall|i: int, j: int| 0 <= i < j < d.remaining.len() implies #[trigger] d.remaining[i]
            != #[trigger] d.remaining[j] by {
            assert(all[i] != all[j]);
        }
    }
    lemma_without_one(d.remaining, id);
    let w = without(d.remaining, id);
    w.to_multiset_ensures();
    d.remaining.to_multiset_ensures();
    vstd::seq_lib::lemma_multiset_commutative(d.remaining, d.red);
    vstd::seq_lib::lemma_multiset_commutative(d.remaining + d.red, d.blu);
    vstd::seq_lib::lemma_multiset_commutative(w, d.red);
    vstd::seq_lib::lemma_multiset_commutative(w, d.red.push(id));
    vstd::seq_lib::lemma_multiset_commutative(w + d.red, d.blu);
    vstd::seq_lib::lemma_multiset_commutative(w + d.red, d.blu.push(id));
    vstd::seq_lib::lemma_multiset_commutative(w + d.red.push(id), d.blu);
    d.red.to_multiset_ensures();
    d.blu.to_multiset_ensures();
    assert(d.remaining.to_multiset().count(id) == 1) by {
        assert(d.remaining.to_multiset().count(id) > 0);
        assert(w.to_multiset().count(id) == 0) by {
            assert(!w.contains(id));
        }
    }
    assert(d.remaining.to_multiset() =~= w.to_multiset().insert(id));
    assert(d.remaining.len() == d.remaining.to_multiset().len());
    assert(w.len() == w.to_multiset().len());
}

/// The prompt asking the invoker to pick a captain.
pub fn captain_prompt(invoker: u64, red: bool) -> (s: String)
    ensures
        s@ == "<@"@ + decimal(invoker as nat) + (if red {
            "> Pick the RED team captain."@
        } else {
            "> Pick the BLU team captain."@
        }),
{
    let mut s = String::from_str("<@");
    push_decimal(&mut s, invoker);
    if red {
        s.append("> Pick the RED team captain.");
    } else {
        s.append("> Pick the BLU team captain.");
    }
    s
}

/// The prompt asking a captain to pick.
pub fn pick_prompt(captain: u64) -> (s: String)
    ensures
        s@ == "<@"@ + decimal(captain as nat) + "> Your pick! :3"@,
{
    let mut s = String::from_str("<@");
    push_decimal(&mut s, captain);
    s.append("> Your pick! :3");
    s
}

} // verus!
