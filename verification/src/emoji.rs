//! The emoji table: emoji names and the text that shows each emoji.
use vstd::prelude::*;

use crate::cards::{Rank, Suit};

verus! {

/// The map that a list of entries builds when they are inserted in order: a later
/// entry for the same name replaces an earlier one.
pub open spec fn entries_map(s: Seq<(Seq<char>, Seq<char>)>) -> Map<Seq<char>, Seq<char>>
    decreases s.len(),
{
    if s.len() == 0 {
        Map::empty()
    } else {
        entries_map(s.drop_last()).insert(s.last().0, s.last().1)
    }
}

/// Emoji names and the text for each, as loaded from the emoji file.
pub struct EmojiTable {
    entries: Vec<(String, String)>,
}

impl EmojiTable {
    pub closed spec fn entry_views(&self) -> Seq<(Seq<char>, Seq<char>)> {
        self.entries@.map_values(|e: (String, String)| (e.0@, e.1@))
    }
}

impl View for EmojiTable {
    type V = Map<Seq<char>, Seq<char>>;

    closed spec fn view(&self) -> Map<Seq<char>, Seq<char>> {
        entries_map(self.entry_views())
    }
}

proof fn lemma_entries_map_tail(s: Seq<(Seq<char>, Seq<char>)>, i: int, k: Seq<char>)
    requires
        0 <= i <= s.len(),
        forall|j: int| i <= j < s.len() ==> #[trigger] s[j].0 != k,
    ensures
        entries_map(s).contains_key(k) == entries_map(s.take(i)).contains_key(k),
        entries_map(s)[k] == entries_map(s.take(i))[k],
    decreases s.len() - i,
{
    if i < s.len() {
        assert(s.drop_last().take(i) =~= s.take(i));
        lemma_entries_map_tail(s.drop_last(), i, k);
    } else {
        assert(s.take(i) =~= s);
    }
}

/// Whether two strings hold the same characters.
fn same_text(a: &String, b: &str) -> (r: bool)
    ensures
        r == (a@ == b@),
{
    let b = b.to_owned();
    *a == b
}

impl EmojiTable {
    /// An empty table.
    pub fn new() -> (t: Self)
        ensures
            t@ == Map::<Seq<char>, Seq<char>>::empty(),
    {
        let t = EmojiTable { entries: Vec::new() };
        assert(t.entry_views() =~= Seq::empty());
        t
    }

    /// Adds an emoji; a name that is already there gets the new text.
    pub fn insert(&mut self, name: String, text: String)
        ensures
            final(self)@ == old(self)@.insert(name@, text@),
    {
        let ghost before = self.entry_views();
        self.entries.push((name, text));
        assert(self.entry_views().drop_last() =~= before);
    }

    /// Whether the table has an emoji of that name.
    pub fn contains(&self, name: &str) -> (b: bool)
        ensures
            b == self@.contains_key(name@),
    {
        let ghost s = self.entry_views();
        let mut i = self.entries.len();
        while i > 0
            invariant
                i <= self.entries@.len(),
                s == self.entry_views(),
                forall|j: int| i <= j < s.len() ==> #[trigger] s[j].0 != name@,
            decreases i,
        {
            if same_text(&self.entries[i - 1].0, name) {
                proof {
                    lemma_entries_map_tail(s, i as int, name@);
                    assert(s.take(i as int).drop_last() =~= s.take(i - 1));
                }
                return true;
            }
            i = i - 1;
        }
        proof {
            lemma_entries_map_tail(s, 0, name@);
            assert(s.take(0) =~= Seq::<(Seq<char>, Seq<char>)>::empty());
        }
        false
    }
}

/// The text of the emoji called `key`.
pub fn emoji<'a>(table: &'a EmojiTable, key: &str) -> (r: &'a str)
    requires
        table@.contains_key(key@),
    ensures
        r@ == table@[key@],
{
    let ghost s = table.entry_views();
    let mut i = table.entries.len();
    while i > 0
        invariant
            i <= table.entries@.len(),
            s == table.entry_views(),
            table@.contains_key(key@),
            forall|j: int| i <= j < s.len() ==> #[trigger] s[j].0 != key@,
        decreases i,
    {
        if same_text(&table.entries[i - 1].0, key) {
            proof {
                lemma_entries_map_tail(s, i as int, key@);
                assert(s.take(i as int).drop_last() =~= s.take(i - 1));
            }
            return table.entries[i - 1].1.as_str();
        }
        i = i - 1;
    }
    proof {
        lemma_entries_map_tail(s, 0, key@);
        assert(s.take(0) =~= Seq::<(Seq<char>, Seq<char>)>::empty());
    }
    // the key is in the table, so the loop has returned
    table.entries[0].1.as_str()
}

impl Rank {
    /// The emoji for the top half of a card of this rank, red or black.
    pub fn emoji(&self, table: &EmojiTable, is_red: bool) -> (s: String)
        requires
            table@.contains_key(self.emoji_key(is_red)),
        ensures
            s@ == table@[self.emoji_key(is_red)],
    {
        let name = self.emoji_name(is_red);
        emoji(table, name.as_str()).to_owned()
    }
}

impl Suit {
    /// The emoji for the bottom half of a card of this suit.
    pub fn emoji<'a>(&self, table: &'a EmojiTable) -> (s: &'a str)
        requires
            table@.contains_key(self.emoji_key()),
        ensures
            s@ == table@[self.emoji_key()],
    {
        emoji(table, self.emoji_name())
    }
}

} // verus!
