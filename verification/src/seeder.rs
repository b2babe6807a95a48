//! Seeder tracking: how long each player spends on a server while it is nearly empty.
use vstd::prelude::*;

use crate::keyed::{entries_to_map, keys_unique, Keyed};

verus! {

/// A server with at most this many players online is being seeded.
pub const SEEDER_POP_THRESHOLD: usize = 12;

/// The value of a key in a map of seconds, zero when absent.
pub open spec fn seconds_of(m: Map<Seq<char>, u64>, k: Seq<char>) -> int {
    if m.contains_key(k) {
        m[k] as int
    } else {
        0
    }
}

/// Every online player joined no later than `now`, and adding the time since their
/// join to their cached seconds stays within a `u64`.
pub open spec fn accountable(online: Map<Seq<char>, u64>, cache: Map<Seq<char>, u64>, now: u64) -> bool {
    forall|k: Seq<char>|
        #[trigger] online.contains_key(k) ==> online[k] <= now && seconds_of(cache, k) + (now
            - online[k]) <= u64::MAX
}

/// The player of the entry joined no later than `now` and can be credited without
/// overflow.
pub open spec fn entry_fits(cache: Map<Seq<char>, u64>, e: (Seq<char>, u64), now: u64) -> bool {
    e.1 <= now && seconds_of(cache, e.0) + (now - e.1) <= u64::MAX
}

/// The cached seconds after crediting every online player with the time since
/// they joined.
pub open spec fn credited(cache: Map<Seq<char>, u64>, online: Map<Seq<char>, u64>, now: u64) -> Map<
    Seq<char>,
    u64,
> {
    Map::new(
        |k: Seq<char>| cache.contains_key(k) || online.contains_key(k),
        |k: Seq<char>|
            (seconds_of(cache, k) + if online.contains_key(k) {
                now - online[k]
            } else {
                0
            }) as u64,
    )
}

/// The cached seconds after crediting one player.
pub open spec fn credit_one(cache: Map<Seq<char>, u64>, k: Seq<char>, secs: int) -> Map<
    Seq<char>,
    u64,
> {
    cache.insert(k, (seconds_of(cache, k) + secs) as u64)
}

/// Crediting the entries of `s` one after the other.
pub open spec fn credit_entries(cache: Map<Seq<char>, u64>, s: Seq<(Seq<char>, u64)>, now: u64) -> Map<
    Seq<char>,
    u64,
>
    decreases s.len(),
{
    if s.len() == 0 {
        cache
    } else {
        let c = credit_entries(cache, s.drop_last(), now);
        credit_one(c, s.last().0, now - s.last().1)
    }
}

/// The online players after synchronizing with the list `ids`: exactly the listed
/// players, each keeping their join time if they were already online, otherwise
/// joining at `now`.
pub open spec fn synced(online: Map<Seq<char>, u64>, ids: Seq<Seq<char>>, now: u64) -> Map<
    Seq<char>,
    u64,
> {
    Map::new(
        |k: Seq<char>| ids.contains(k),
        |k: Seq<char>|
            if online.contains_key(k) {
                online[k]
            } else {
                now
            },
    )
}

/// The entries of a list of (steam id, seconds) pairs, the ids taken as text.
pub open spec fn seconds_entries(v: Seq<(String, u64)>) -> Seq<(Seq<char>, u64)> {
    v.map_values(|e: (String, u64)| (e.0@, e.1))
}

proof fn lemma_seconds_entries_push(v: Seq<(String, u64)>, e: (String, u64))
    ensures
        seconds_entries(v.push(e)) == seconds_entries(v).push((e.0@, e.1)),
{
    assert(seconds_entries(v.push(e)) =~= seconds_entries(v).push((e.0@, e.1)));
}

/// Tracks the players on one server and the seconds each has spent seeding it.
pub struct Tracker {
    seeding: bool,
    /// steam id -> join time (seconds since the unix epoch)
    players_online: Keyed<u64>,
    /// steam id -> seconds seeded and not yet written to the database
    flush_cache: Keyed<u64>,
}

impl Tracker {
    /// Whether the server counts as being seeded.
    pub closed spec fn seeding(&self) -> bool {
        self.seeding
    }

    /// The online players and their join times.
    pub closed spec fn online(&self) -> Map<Seq<char>, u64> {
        self.players_online@
    }

    /// Seconds seeded per player that wait to be written to the database.
    pub closed spec fn cache(&self) -> Map<Seq<char>, u64> {
        self.flush_cache@
    }

    /// The tracker is consistent: it counts as seeding exactly when at most
    /// [`SEEDER_POP_THRESHOLD`] players are online.
    pub closed spec fn wf(&self) -> bool {
        &&& self.players_online.wf()
        &&& self.flush_cache.wf()
        &&& self.seeding == (self.players_online@.dom().len() <= SEEDER_POP_THRESHOLD)
    }

    proof fn lemma_wf(&self)
        requires
            self.players_online.wf(),
        ensures
            self.players_online@.dom().len() == self.players_online.entries().len(),
            self.online().dom().finite(),
    {
        self.players_online.lemma_view();
    }
}

proof fn lemma_credit_entries_map(cache: Map<Seq<char>, u64>, s: Seq<(Seq<char>, u64)>, now: u64)
    requires
        keys_unique(s),
        accountable(entries_to_map(s), cache, now),
    ensures
        credit_entries(cache, s, now) == credited(cache, entries_to_map(s), now),
    decreases s.len(),
{
    crate::keyed::lemma_entries_to_map(s);
    if s.len() == 0 {
        assert(credited(cache, entries_to_map(s), now) =~= cache);
    } else {
        let t = s.drop_last();
        assert(keys_unique(t));
        crate::keyed::lemma_entries_to_map(t);
        assert(accountable(entries_to_map(t), cache, now)) by {
            assert forall|k: Seq<char>| #[trigger] entries_to_map(t).contains_key(k) implies entries_to_map(
                t,
            )[k] <= now && seconds_of(cache, k) + (now - entries_to_map(t)[k]) <= u64::MAX by {
                let i = choose|i: int| 0 <= i < t.len() && t[i].0 == k;
                assert(s[i] == t[i]);
                assert(entries_to_map(s).contains_key(s[i].0));
            }
        }
        lemma_credit_entries_map(cache, t, now);
        let last = s.last();
        assert(!entries_to_map(t).contains_key(last.0)) by {
            if entries_to_map(t).contains_key(last.0) {
                let i = choose|i: int| 0 <= i < t.len() && t[i].0 == last.0;
                assert(s[i].0 == s[s.len() - 1].0);
            }
        }
        assert(entries_to_map(s).contains_key(last.0));
        assert(credit_entries(cache, s, now) =~= credited(cache, entries_to_map(s), now));
    }
}

impl Tracker {
    /// Starts tracking with the players currently on the server, all joining `now`.
    pub fn new(player_ids: &Vec<String>, now: u64) -> (t: Self)
        ensures
            t.wf(),
            t.online() == Map::new(
                |k: Seq<char>| player_ids@.map_values(|s: String| s@).contains(k),
                |k: Seq<char>| now,
            ),
            t.cache() == Map::<Seq<char>, u64>::empty(),
    {
        let ghost ids = player_ids@.map_values(|s: String| s@);
        let mut online: Keyed<u64> = Keyed::new();
        let mut i: usize = 0;
        while i < player_ids.len()
            invariant
                i <= player_ids@.len(),
                ids == player_ids@.map_values(|s: String| s@),
                online.wf(),
                online@ == Map::new(|k: Seq<char>| ids.take(i as int).contains(k), |k: Seq<char>| now),
            decreases player_ids@.len() - i,
        {
            online.insert(player_ids[i].clone(), now);
            i = i + 1;
            assert(online@ =~= Map::new(
                |k: Seq<char>| ids.take(i as int).contains(k),
                |k: Seq<char>| now,
            )) by {
                lemma_take_contains(ids, i as int);
            }
        }
        assert(ids.take(player_ids@.len() as int) =~= ids);
        let n = online.len();
        let t = Tracker {
            seeding: n <= SEEDER_POP_THRESHOLD,
            players_online: online,
            flush_cache: Keyed::new(),
        };
        t
    }

    /// Whether the server counts as being seeded.
    pub fn is_seeding(&self) -> (b: bool)
        ensures
            b == self.seeding(),
    {
        self.seeding
    }

    /// Number of players online.
    pub fn online_count(&self) -> (n: usize)
        requires
            self.wf(),
        ensures
            n == self.online().dom().len(),
    {
        self.players_online.len()
    }

    /// Whether every online player can be credited at `now` (see [`accountable`]).
    pub fn can_account_at(&self, now: u64) -> (b: bool)
        requires
            self.wf(),
        ensures
            b == accountable(self.online(), self.cache(), now),
    {
        proof {
            self.players_online.lemma_view();
        }
        let ghost s = self.players_online.entries();
        let mut i: usize = 0;
        while i < self.players_online.len()
            invariant
                i <= s.len(),
                s == self.players_online.entries(),
                self.wf(),
                forall|j: int| 0 <= j < i ==> #[trigger] entry_fits(self.cache(), s[j], now),
            decreases s.len() - i,
        {
            proof {
                self.players_online.lemma_view();
            }
            let (id, joined) = self.players_online.entry_at(i);
            if *joined > now {
                proof {
                    assert(self.online().contains_key(s[i as int].0));
                }
                return false;
            }
            let have: u64 = match self.flush_cache.get(id.as_str()) {
                Some(v) => *v,
                None => 0,
            };
            if have > u64::MAX - (now - *joined) {
                proof {
                    assert(self.online().contains_key(s[i as int].0));
                }
                return false;
            }
            assert(*joined == s[i as int].1);
            assert(id@ == s[i as int].0);
            assert(entry_fits(self.cache(), s[i as int], now));
            i = i + 1;
        }
        proof {
            assert forall|k: Seq<char>| #[trigger] self.online().contains_key(k) implies self.online()[k]
                <= now && seconds_of(self.cache(), k) + (now - self.online()[k]) <= u64::MAX by {
                let j = choose|j: int| 0 <= j < s.len() && s[j].0 == k;
                assert(self.online()[s[j].0] == s[j].1);
                assert(entry_fits(self.cache(), s[j], now));
            }
        }
        true
    }

    /// Credits every online player with the seconds since they joined.
    fn push_all_seed_times(&mut self, now: u64)
        requires
            old(self).players_online.wf(),
            old(self).flush_cache.wf(),
            accountable(old(self).online(), old(self).cache(), now),
        ensures
            final(self).players_online == old(self).players_online,
            final(self).seeding == old(self).seeding,
            final(self).flush_cache.wf(),
            final(self).cache() == credited(old(self).cache(), old(self).online(), now),
    {
        proof {
            self.players_online.lemma_view();
        }
        let ghost s = self.players_online.entries();
        let ghost cache0 = self.cache();
        let mut i: usize = 0;
        while i < self.players_online.len()
            invariant
                i <= s.len(),
                s == self.players_online.entries(),
                self.players_online.wf(),
                self.flush_cache.wf(),
                self.players_online == old(self).players_online,
                self.seeding == old(self).seeding,
                keys_unique(s),
                accountable(entries_to_map(s), cache0, now),
                self.cache() == credit_entries(cache0, s.take(i as int), now),
            decreases s.len() - i,
        {
            proof {
                crate::keyed::lemma_entries_to_map(s);
                assert(entries_to_map(s).contains_key(s[i as int].0));
                assert(s.take(i + 1).drop_last() =~= s.take(i as int));
                // the entries not yet credited keep their cached value
                assert(seconds_of(self.cache(), s[i as int].0) == seconds_of(cache0, s[i as int].0))
                    by {
                    lemma_prefix_keeps(cache0, s, i as int, i as int, now);
                }
            }
            let (id, joined) = self.players_online.entry_at(i);
            let seconds_seeded = now - *joined;
            let have: u64 = match self.flush_cache.get(id.as_str()) {
                Some(v) => *v,
                None => 0,
            };
            self.flush_cache.insert(id.clone(), have + seconds_seeded);
            i = i + 1;
        }
        proof {
            assert(s.take(s.len() as int) =~= s);
            lemma_credit_entries_map(cache0, s, now);
        }
    }

    /// Adds `secs` to the seconds cached for one player.
    fn push_user_seed_time(&mut self, steamid: String, seconds_seeded: u64)
        requires
            old(self).flush_cache.wf(),
            seconds_of(old(self).cache(), steamid@) + seconds_seeded <= u64::MAX,
        ensures
            final(self).players_online == old(self).players_online,
            final(self).seeding == old(self).seeding,
            final(self).flush_cache.wf(),
            final(self).cache() == credit_one(old(self).cache(), steamid@, seconds_seeded as int),
    {
        let have: u64 = match self.flush_cache.get(steamid.as_str()) {
            Some(v) => *v,
            None => 0,
        };
        self.flush_cache.insert(steamid, have + seconds_seeded);
    }

    /// A player joined at `now`. When this takes the server past the seeding
    /// threshold, everyone online is credited with their time so far and the server
    /// stops counting as seeded.
    pub fn on_join(&mut self, steamid: String, now: u64)
        requires
            old(self).wf(),
            old(self).seeding() ==> accountable(old(self).online().insert(steamid@, now), old(self).cache(), now),
        ensures
            final(self).wf(),
            final(self).online() == old(self).online().insert(steamid@, now),
            if old(self).seeding() && final(self).online().dom().len() > SEEDER_POP_THRESHOLD {
                &&& final(self).cache() == credited(old(self).cache(), final(self).online(), now)
                &&& !final(self).seeding()
            } else {
                final(self).cache() == old(self).cache()
            },
    {
        proof {
            self.lemma_wf();
        }
        self.players_online.insert(steamid, now);
        proof {
            self.lemma_wf();
        }
        if self.seeding && self.players_online.len() > SEEDER_POP_THRESHOLD {
            self.push_all_seed_times(now);
            self.seeding = false;
        }
        proof {
            self.lemma_wf();
        }
    }

    /// A player left at `now`. While the server is being seeded, the player is
    /// credited with the time since they joined; when the server was not being
    /// seeded and the departure brings it to the threshold, every remaining player's
    /// seeding time starts over at `now`.
    pub fn on_leave(&mut self, steamid: &str, now: u64)
        requires
            old(self).wf(),
            old(self).seeding() && old(self).online().contains_key(steamid@) ==> old(self).online()[steamid@] <= now
                && seconds_of(old(self).cache(), steamid@) + (now - old(self).online()[steamid@])
                <= u64::MAX,
        ensures
            final(self).wf(),
            !old(self).online().contains_key(steamid@) ==> final(self).online() == old(self).online()
                && final(self).cache() == old(self).cache() && final(self).seeding()
                == old(self).seeding(),
            old(self).online().contains_key(steamid@) ==> {
                let rest = old(self).online().remove(steamid@);
                if old(self).seeding() {
                    &&& final(self).online() == rest
                    &&& final(self).cache() == credit_one(
                        old(self).cache(),
                        steamid@,
                        now - old(self).online()[steamid@],
                    )
                } else if rest.dom().len() <= SEEDER_POP_THRESHOLD {
                    &&& final(self).online().dom() == rest.dom()
                    &&& forall|k: Seq<char>| #[trigger] final(self).online().contains_key(k) ==> final(self).online()[k] == now
                    &&& final(self).cache() == old(self).cache()
                } else {
                    &&& final(self).online() == rest
                    &&& final(self).cache() == old(self).cache()
                }
            },
    {
        proof {
            self.lemma_wf();
        }
        let joined_at = match self.players_online.remove(steamid) {
            Some(t) => t,
            None => {
                return;
            },
        };
        proof {
            self.lemma_wf();
            old(self).lemma_wf();
            assert(old(self).online().dom().remove(steamid@) =~= self.online().dom());
        }
        if self.seeding {
            let time_spent = now - joined_at;
            self.push_user_seed_time(steamid.to_owned(), time_spent);
        } else if self.players_online.len() <= SEEDER_POP_THRESHOLD {
            self.players_online.set_all(now);
            self.seeding = true;
        }
        proof {
            self.lemma_wf();
        }
    }

    /// Resynchronizes with the players actually on the server: players not listed
    /// are dropped without credit, listed players not yet tracked join at `now`.
    pub fn synchronize(&mut self, player_ids: &Vec<String>, now: u64)
        requires
            old(self).wf(),
        ensures
            final(self).wf(),
            final(self).online() == synced(old(self).online(), player_ids@.map_values(|s: String| s@), now),
            final(self).cache() == old(self).cache(),
    {
        let ghost ids = player_ids@.map_values(|s: String| s@);
        let ghost online0 = self.online();
        let mut fresh: Keyed<u64> = Keyed::new();
        let mut i: usize = 0;
        while i < player_ids.len()
            invariant
                i <= player_ids@.len(),
                ids == player_ids@.map_values(|s: String| s@),
                self.players_online.wf(),
                online0 == self.online(),
                fresh.wf(),
                fresh@ == synced(online0, ids.take(i as int), now),
            decreases player_ids@.len() - i,
        {
            let joined: u64 = match self.players_online.get(player_ids[i].as_str()) {
                Some(t) => *t,
                None => now,
            };
            assert(ids[i as int] == player_ids@[i as int]@);
            fresh.insert(player_ids[i].clone(), joined);
            i = i + 1;
            proof {
                lemma_take_contains(ids, i as int);
                assert(fresh@ =~= synced(online0, ids.take(i as int), now));
            }
        }
        assert(ids.take(player_ids@.len() as int) =~= ids);
        self.players_online = fresh;
        let n = self.players_online.len();
        self.seeding = n <= SEEDER_POP_THRESHOLD;
    }

    /// The cached seconds per player, waiting to be written to the database.
    pub fn pending_flush(&self) -> (v: Vec<(String, u64)>)
        requires
            self.wf(),
        ensures
            entries_to_map(seconds_entries(v@)) == self.cache(),
            keys_unique(seconds_entries(v@)),
    {
        proof {
            self.flush_cache.lemma_view();
        }
        let ghost s = self.flush_cache.entries();
        let mut v: Vec<(String, u64)> = Vec::new();
        let mut i: usize = 0;
        while i < self.flush_cache.len()
            invariant
                i <= s.len(),
                s == self.flush_cache.entries(),
                self.wf(),
                seconds_entries(v@) == s.take(i as int),
            decreases s.len() - i,
        {
            let (id, secs) = self.flush_cache.entry_at(i);
            let ghost before = v@;
            let name = id.clone();
            assert(name@ == s[i as int].0);
            v.push((name, *secs));
            proof {
                lemma_seconds_entries_push(before, v@[before.len() as int]);
                assert(v@ =~= before.push(v@[before.len() as int]));
            }
            i = i + 1;
            assert(seconds_entries(v@) =~= s.take(i as int));
        }
        assert(s.take(s.len() as int) =~= s);
        v
    }

    /// Forgets the cached seconds once they have been written to the database.
    pub fn clear_flush_cache(&mut self)
        requires
            old(self).wf(),
        ensures
            final(self).wf(),
            final(self).online() == old(self).online(),
            final(self).seeding() == old(self).seeding(),
            final(self).cache() == Map::<Seq<char>, u64>::empty(),
    {
        self.flush_cache.clear();
    }
}

proof fn lemma_take_contains(ids: Seq<Seq<char>>, i: int)
    requires
        0 < i <= ids.len(),
    ensures
        forall|k: Seq<char>|
            #[trigger] ids.take(i).contains(k) <==> ids.take(i - 1).contains(k) || k == ids[i - 1],
{
    let now_taken = ids.take(i);
    let before = ids.take(i - 1);
    assert forall|k: Seq<char>| #[trigger] now_taken.contains(k) implies before.contains(k) || k
        == ids[i - 1] by {
        let j = choose|j: int| 0 <= j < now_taken.len() && now_taken[j] == k;
        if j < i - 1 {
            assert(before[j] == k);
        }
    }
    assert forall|k: Seq<char>| #[trigger] before.contains(k) implies now_taken.contains(k) by {
        let j = choose|j: int| 0 <= j < before.len() && before[j] == k;
        assert(now_taken[j] == k);
    }
    assert(now_taken[i - 1] == ids[i - 1]);
}

proof fn lemma_prefix_keeps(cache: Map<Seq<char>, u64>, s: Seq<(Seq<char>, u64)>, p: int, i: int, now: u64)
    requires
        keys_unique(s),
        0 <= p <= i < s.len(),
    ensures
        seconds_of(credit_entries(cache, s.take(p), now), s[i].0) == seconds_of(cache, s[i].0),
    decreases p,
{
    if p > 0 {
        assert(s.take(p).drop_last() =~= s.take(p - 1));
        assert(s[p - 1].0 != s[i].0);
        lemma_prefix_keeps(cache, s, p - 1, i, now);
    } else {
        assert(s.take(0) =~= Seq::<(Seq<char>, u64)>::empty());
    }
}

/// The server counts as being seeded exactly when at most the threshold number of
/// players is online; every operation keeps this so.
pub proof fn law_seeding_matches_population(t: &Tracker)
    requires
        t.wf(),
    ensures
        t.seeding() == (t.online().dom().len() <= SEEDER_POP_THRESHOLD),
{
}

} // verus!
