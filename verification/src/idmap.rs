//! A small map from numeric ids (such as discord user ids) to values, kept as a list
//! of entries.
use vstd::prelude::*;

verus! {

/// The map that a list of entries builds when they are inserted in order.
pub open spec fn id_entries_to_map<V>(s: Seq<(u64, V)>) -> Map<u64, V>
    decreases s.len(),
{
    if s.len() == 0 {
        Map::empty()
    } else {
        id_entries_to_map(s.drop_last()).insert(s.last().0, s.last().1)
    }
}

/// No key occurs twice among the entries.
pub open spec fn ids_unique<V>(s: Seq<(u64, V)>) -> bool {
    forall|i: int, j: int| 0 <= i < j < s.len() ==> #[trigger] s[i].0 != #[trigger] s[j].0
}

/// Entries with distinct keys give a map that holds exactly their keys, each with
/// its value.
pub proof fn lemma_id_entries_to_map<V>(s: Seq<(u64, V)>)
    requires
        ids_unique(s),
    ensures
        id_entries_to_map(s).dom().finite(),
        id_entries_to_map(s).dom().len() == s.len(),
        forall|i: int|
            0 <= i < s.len() ==> #[trigger] id_entries_to_map(s).contains_key(s[i].0)
                && id_entries_to_map(s)[s[i].0] == s[i].1,
        forall|k: u64|
            #[trigger] id_entries_to_map(s).contains_key(k) ==> exists|i: int|
                0 <= i < s.len() && s[i].0 == k,
    decreases s.len(),
{
    if s.len() > 0 {
        let t = s.drop_last();
        assert(ids_unique(t));
        lemma_id_entries_to_map(t);
        assert(!id_entries_to_map(t).contains_key(s.last().0)) by {
            if id_entries_to_map(t).contains_key(s.last().0) {
                let i = choose|i: int| 0 <= i < t.len() && t[i].0 == s.last().0;
                assert(s[i].0 == s[s.len() - 1].0);
            }
        }
        assert forall|i: int| 0 <= i < s.len() implies #[trigger] id_entries_to_map(s).contains_key(
            s[i].0,
        ) && id_entries_to_map(s)[s[i].0] == s[i].1 by {
            if i < s.len() - 1 {
                assert(t[i] == s[i]);
            }
        }
        assert forall|k: u64| #[trigger] id_entries_to_map(s).contains_key(k) implies exists|
            i: int,
        | 0 <= i < s.len() && s[i].0 == k by {
            if k != s.last().0 {
                let i = choose|i: int| 0 <= i < t.len() && t[i].0 == k;
                assert(s[i].0 == k);
            } else {
                assert(s[s.len() - 1].0 == k);
            }
        }
    }
}

/// Numeric keys, each with one value; inserting a key that is there replaces its value.
pub struct IdMap<V> {
    entries: Vec<(u64, V)>,
}

impl<V> IdMap<V> {
    /// The entries in the order in which their keys were first inserted.
    pub closed spec fn entries(&self) -> Seq<(u64, V)> {
        self.entries@
    }

    /// No key occurs twice.
    pub closed spec fn wf(&self) -> bool {
        ids_unique(self.entries())
    }
}

impl<V> View for IdMap<V> {
    type V = Map<u64, V>;

    closed spec fn view(&self) -> Map<u64, V> {
        id_entries_to_map(self.entries())
    }
}

proof fn lemma_update_value<V>(s: Seq<(u64, V)>, i: int, v: V)
    requires
        ids_unique(s),
        0 <= i < s.len(),
    ensures
        ids_unique(s.update(i, (s[i].0, v))),
        id_entries_to_map(s.update(i, (s[i].0, v))) == id_entries_to_map(s).insert(s[i].0, v),
    decreases s.len(),
{
    let u = s.update(i, (s[i].0, v));
    assert(ids_unique(u)) by {
        assert forall|a: int, b: int| 0 <= a < b < u.len() implies #[trigger] u[a].0
            != #[trigger] u[b].0 by {
            assert(s[a].0 != s[b].0);
        }
    }
    if i == s.len() - 1 {
        assert(u.drop_last() =~= s.drop_last());
        assert(id_entries_to_map(u) =~= id_entries_to_map(s).insert(s[i].0, v));
    } else {
        assert(u.drop_last() =~= s.drop_last().update(i, (s[i].0, v)));
        assert(ids_unique(s.drop_last()));
        lemma_update_value(s.drop_last(), i, v);
        assert(s.last().0 != s[i].0);
        assert(id_entries_to_map(u) =~= id_entries_to_map(s).insert(s[i].0, v));
    }
}

proof fn lemma_remove_entry<V>(s: Seq<(u64, V)>, i: int)
    requires
        ids_unique(s),
        0 <= i < s.len(),
    ensures
        ids_unique(s.remove(i)),
        id_entries_to_map(s.remove(i)) == id_entries_to_map(s).remove(s[i].0),
    decreases s.len(),
{
    let r = s.remove(i);
    assert(ids_unique(r)) by {
        assert forall|a: int, b: int| 0 <= a < b < r.len() implies #[trigger] r[a].0
            != #[trigger] r[b].0 by {
            let a2 = if a < i {
                a
            } else {
                a + 1
            };
            let b2 = if b < i {
                b
            } else {
                b + 1
            };
            assert(s[a2].0 != s[b2].0);
        }
    }
    if i == s.len() - 1 {
        assert(r =~= s.drop_last());
        assert(ids_unique(s.drop_last()));
        lemma_id_entries_to_map(s.drop_last());
        assert(!id_entries_to_map(s.drop_last()).contains_key(s[i].0)) by {
            if id_entries_to_map(s.drop_last()).contains_key(s[i].0) {
                let j = choose|j: int| 0 <= j < s.drop_last().len() && s.drop_last()[j].0 == s[i].0;
                assert(s[j].0 == s[i].0);
            }
        }
        assert(id_entries_to_map(r) =~= id_entries_to_map(s).remove(s[i].0));
    } else {
        assert(r.drop_last() =~= s.drop_last().remove(i));
        assert(r.last() == s.last());
        assert(ids_unique(s.drop_last()));
        lemma_remove_entry(s.drop_last(), i);
        assert(s.last().0 != s[i].0);
        assert(id_entries_to_map(r) =~= id_entries_to_map(s).remove(s[i].0));
    }
}

impl<V> IdMap<V> {
    /// An empty map.
    pub fn new() -> (k: Self)
        ensures
            k@ == Map::<u64, V>::empty(),
            k.entries().len() == 0,
            k.wf(),
    {
        let k = IdMap { entries: Vec::new() };
        assert(k.entries() =~= Seq::empty());
        k
    }

    /// The view is the map of the entries, whose keys are distinct.
    pub proof fn lemma_view(&self)
        requires
            self.wf(),
        ensures
            ids_unique(self.entries()),
            self@ == id_entries_to_map(self.entries()),
            self@.dom().finite(),
            self@.dom().len() == self.entries().len(),
            forall|i: int|
                0 <= i < self.entries().len() ==> #[trigger] self@.contains_key(
                    self.entries()[i].0,
                ) && self@[self.entries()[i].0] == self.entries()[i].1,
            forall|k: u64|
                #[trigger] self@.contains_key(k) ==> exists|i: int|
                    0 <= i < self.entries().len() && self.entries()[i].0 == k,
    {
        let s = self.entries();
        lemma_id_entries_to_map(s);
        assert forall|i: int| 0 <= i < s.len() implies #[trigger] self@.contains_key(s[i].0)
            && self@[s[i].0] == s[i].1 by {
            assert(id_entries_to_map(s).contains_key(s[i].0));
        }
    }

    /// Number of keys.
    pub fn len(&self) -> (n: usize)
        requires
            self.wf(),
        ensures
            n == self@.dom().len(),
            n == self.entries().len(),
    {
        proof {
            self.lemma_view();
        }
        self.entries.len()
    }

    fn find(&self, key: u64) -> (r: Option<usize>)
        requires
            self.wf(),
        ensures
            match r {
                Some(i) => i < self.entries().len() && self.entries()[i as int].0 == key,
                None => !self@.contains_key(key),
            },
    {
        proof {
            self.lemma_view();
        }
        let mut i: usize = 0;
        while i < self.entries.len()
            invariant
                i <= self.entries@.len(),
                forall|j: int| 0 <= j < i ==> #[trigger] self.entries()[j].0 != key,
            decreases self.entries@.len() - i,
        {
            if self.entries[i].0 == key {
                return Some(i);
            }
            i = i + 1;
        }
        None
    }

    /// Whether the key is present.
    pub fn contains_key(&self, key: u64) -> (b: bool)
        requires
            self.wf(),
        ensures
            b == self@.contains_key(key),
    {
        proof {
            self.lemma_view();
        }
        match self.find(key) {
            Some(_) => true,
            None => false,
        }
    }

    /// The value of a key, if present.
    pub fn get(&self, key: u64) -> (r: Option<&V>)
        requires
            self.wf(),
        ensures
            match r {
                Some(v) => self@.contains_key(key) && *v == self@[key],
                None => !self@.contains_key(key),
            },
    {
        proof {
            self.lemma_view();
        }
        match self.find(key) {
            Some(i) => {
                assert(self.entries()[i as int].1 == self.entries@[i as int].1);
                assert(self@.contains_key(self.entries()[i as int].0));
                Some(&self.entries[i].1)
            },
            None => None,
        }
    }

    /// The key and value of the entry at position `i`.
    pub fn entry_at(&self, i: usize) -> (r: (u64, &V))
        requires
            i < self.entries().len(),
        ensures
            r.0 == self.entries()[i as int].0,
            *r.1 == self.entries()[i as int].1,
    {
        (self.entries[i].0, &self.entries[i].1)
    }

    /// Sets the value of a key, adding the key when it is not there.
    pub fn insert(&mut self, key: u64, value: V)
        requires
            old(self).wf(),
        ensures
            final(self).wf(),
            final(self)@ == old(self)@.insert(key, value),
            old(self)@.contains_key(key) ==> final(self).entries().len() == old(self).entries().len(),
            !old(self)@.contains_key(key) ==> final(self).entries().len() == old(self).entries().len()
                + 1,
    {
        let ghost s = self.entries();
        match self.find(key) {
            Some(i) => {
                proof {
                    self.lemma_view();
                    lemma_update_value(s, i as int, value);
                }
                let ghost k = key;
                let mut e = Vec::new();
                std::mem::swap(&mut e, &mut self.entries);
                e.set(i, (key, value));
                self.entries = e;
                assert(self.entries() =~= s.update(i as int, (k, value)));
            },
            None => {
                let ghost k = key;
                let mut e = Vec::new();
                std::mem::swap(&mut e, &mut self.entries);
                e.push((key, value));
                assert(e@ =~= s.push((k, value)));
                assert(ids_unique(s.push((k, value)))) by {
                    lemma_id_entries_to_map(s);
                    assert forall|a: int, b: int| 0 <= a < b < s.len() + 1 implies #[trigger] s.push(
                        (k, value),
                    )[a].0 != #[trigger] s.push((k, value))[b].0 by {
                        if b == s.len() {
                            assert(id_entries_to_map(s).contains_key(s[a].0));
                        }
                    }
                }
                self.entries = e;
                assert(s.push((k, value)).drop_last() =~= s);
            },
        }
    }

    /// Removes a key and gives back its value, if it was there.
    pub fn remove(&mut self, key: u64) -> (r: Option<V>)
        requires
            old(self).wf(),
        ensures
            final(self).wf(),
            final(self)@ == old(self)@.remove(key),
            match r {
                Some(v) => old(self)@.contains_key(key) && v == old(self)@[key],
                None => !old(self)@.contains_key(key),
            },
            old(self)@.contains_key(key) ==> final(self).entries().len() == old(self).entries().len()
                - 1,
            !old(self)@.contains_key(key) ==> final(self).entries() == old(self).entries(),
    {
        proof {
            self.lemma_view();
        }
        let ghost s = self.entries();
        match self.find(key) {
            Some(i) => {
                proof {
                    lemma_remove_entry(s, i as int);
                }
                let mut e = Vec::new();
                std::mem::swap(&mut e, &mut self.entries);
                assert(s[i as int].1 == e@[i as int].1);
                assert(old(self)@.contains_key(s[i as int].0));
                let (_, v) = e.remove(i);
                self.entries = e;
                assert(self.entries() =~= s.remove(i as int));
                Some(v)
            },
            None => {
                assert(old(self)@.remove(key) =~= old(self)@);
                None
            },
        }
    }

    /// Removes every entry and gives them back, in order.
    pub fn take_entries(&mut self) -> (v: Vec<(u64, V)>)
        requires
            old(self).wf(),
        ensures
            ids_unique(v@),
            id_entries_to_map(v@) == old(self)@,
            final(self).wf(),
            final(self)@ == Map::<u64, V>::empty(),
            final(self).entries().len() == 0,
            v@ == old(self).entries(),
    {
        let mut v = Vec::new();
        std::mem::swap(&mut v, &mut self.entries);
        assert(self.entries() =~= Seq::empty());
        v
    }

    /// Removes every key.
    pub fn clear(&mut self)
        ensures
            final(self).wf(),
            final(self)@ == Map::<u64, V>::empty(),
            final(self).entries().len() == 0,
    {
        self.entries = Vec::new();
        assert(self.entries() =~= Seq::empty());
    }
}

impl<V: Copy> IdMap<V> {
    /// Gives every key the same value.
    pub fn set_all(&mut self, value: V)
        requires
            old(self).wf(),
        ensures
            final(self).wf(),
            final(self)@.dom() == old(self)@.dom(),
            forall|k: u64| #[trigger] final(self)@.contains_key(k) ==> final(self)@[k] == value,
            final(self).entries().len() == old(self).entries().len(),
    {
        proof {
            self.lemma_view();
        }
        let ghost s = self.entries();
        let mut e = Vec::new();
        std::mem::swap(&mut e, &mut self.entries);
        let mut i: usize = 0;
        while i < e.len()
            invariant
                i <= e@.len(),
                e@.len() == s.len(),
                forall|j: int| 0 <= j < e@.len() ==> #[trigger] e@[j].0 == s[j].0,
                forall|j: int| 0 <= j < i ==> #[trigger] e@[j].1 == value,
                forall|j: int| i <= j < e@.len() ==> #[trigger] e@[j].1 == s[j].1,
            decreases e@.len() - i,
        {
            let mut pair = (0u64, value);
            std::mem::swap(&mut pair, &mut e[i]);
            pair.1 = value;
            std::mem::swap(&mut pair, &mut e[i]);
            i = i + 1;
        }
        self.entries = e;
        proof {
            let t = self.entries();
            assert(ids_unique(t)) by {
                assert forall|a: int, b: int| 0 <= a < b < t.len() implies #[trigger] t[a].0
                    != #[trigger] t[b].0 by {
                    assert(s[a].0 != s[b].0);
                }
            }
            lemma_id_entries_to_map(t);
            assert(self@.dom() =~= old(self)@.dom()) by {
                assert forall|k: u64| self@.contains_key(k) implies old(self)@.contains_key(
                    k,
                ) by {
                    let i = choose|i: int| 0 <= i < t.len() && t[i].0 == k;
                    assert(s[i].0 == k);
                }
                assert forall|k: u64| old(self)@.contains_key(k) implies self@.contains_key(
                    k,
                ) by {
                    let i = choose|i: int| 0 <= i < s.len() && s[i].0 == k;
                    assert(t[i].0 == k);
                }
            }
            assert forall|k: u64| #[trigger] self@.contains_key(k) implies self@[k]
                == value by {
                let i = choose|i: int| 0 <= i < t.len() && t[i].0 == k;
                assert(t[i].1 == value);
            }
        }
    }
}

} // verus!
