//! Counts of how often each emoji is used in messages and in reactions, kept until
//! they are written to the database.
use vstd::prelude::*;

use crate::keyed::{entries_to_map, keys_unique, Keyed};
use crate::patterns::{discord_emoji_captures, find_discord_emojis, find_unicode_emojis, unicode_emojis};
use crate::text::{
    char_from_u32, chars_of, lemma_split_nonempty, lemma_split_prefix, parse_hex, parse_hex_u32,
    push_char, push_decimal, push_signed_decimal, split_on_space, text_eq, valid_scalar, decimal,
    signed_decimal,
};

verus! {

/// The counts of one emoji since the last flush.
pub struct EmojiUsage {
    pub name: String,
    pub use_count: i32,
    pub react_count: i32,
    pub is_discord: bool,
    pub animated: bool,
}

/// The counts of one emoji, as plain values.
pub struct UsageView {
    pub name: Seq<char>,
    pub use_count: int,
    pub react_count: int,
    pub is_discord: bool,
    pub animated: bool,
}

/// An emoji seen in a message: its name, id, whether it is a discord emoji and
/// whether it is animated.
pub type EmojiRow = (String, String, bool, bool);

/// The view of an emoji's counts.
pub open spec fn usage_view(u: EmojiUsage) -> UsageView {
    UsageView {
        name: u.name@,
        use_count: u.use_count as int,
        react_count: u.react_count as int,
        is_discord: u.is_discord,
        animated: u.animated,
    }
}

/// The counts after one more use of emoji `eid` in a message.
pub open spec fn with_use(
    m: Map<Seq<char>, UsageView>,
    eid: Seq<char>,
    name: Seq<char>,
    is_discord: bool,
    animated: bool,
) -> Map<Seq<char>, UsageView> {
    if m.contains_key(eid) {
        m.insert(eid, UsageView { use_count: m[eid].use_count + 1, ..m[eid] })
    } else {
        m.insert(eid, UsageView { name, use_count: 1, react_count: 0, is_discord, animated })
    }
}

/// The counts after `delta` (one or minus one) more reactions with emoji `eid`.
pub open spec fn with_react(
    m: Map<Seq<char>, UsageView>,
    eid: Seq<char>,
    name: Seq<char>,
    is_discord: bool,
    animated: bool,
    delta: int,
) -> Map<Seq<char>, UsageView> {
    if m.contains_key(eid) {
        m.insert(eid, UsageView { react_count: m[eid].react_count + delta, ..m[eid] })
    } else {
        m.insert(eid, UsageView { name, use_count: 0, react_count: delta, is_discord, animated })
    }
}

/// The view of an emoji row: name, id, discord, animated.
pub open spec fn row_view(r: EmojiRow) -> (Seq<char>, Seq<char>, bool, bool) {
    (r.0@, r.1@, r.2, r.3)
}

/// The counts after one use of each distinct emoji id among `rows`; an id that
/// occurs more than once is counted once, with the name and flags of its first row.
pub open spec fn with_rows(
    m: Map<Seq<char>, UsageView>,
    rows: Seq<(Seq<char>, Seq<char>, bool, bool)>,
) -> Map<Seq<char>, UsageView>
    decreases rows.len(),
{
    if rows.len() == 0 {
        m
    } else {
        let prev = with_rows(m, rows.drop_last());
        let r = rows.last();
        if ids(rows.drop_last()).contains(r.1) {
            prev
        } else {
            with_use(prev, r.1, r.0, r.2, r.3)
        }
    }
}

/// The emoji of a message: the unicode emoji found in it (name, codepoints), then
/// the discord emoji (`<:name:id>`, or `<a:name:id>` when animated).
pub open spec fn message_rows(content: Seq<char>) -> Seq<(Seq<char>, Seq<char>, bool, bool)> {
    unicode_emojis(content).map_values(
        |e: (Seq<char>, Seq<char>)| (e.0, e.1, false, false),
    ) + discord_emoji_captures(content).map_values(
        |c: (Seq<char>, Seq<char>, Seq<char>)| (c.1, c.2, true, c.0 == "a"@),
    )
}

/// The ids of a list of emoji rows.
pub open spec fn ids(rows: Seq<(Seq<char>, Seq<char>, bool, bool)>) -> Seq<Seq<char>> {
    rows.map_values(|x: (Seq<char>, Seq<char>, bool, bool)| x.1)
}

/// Whether the id of row `i` occurs in an earlier row.
fn seen_before(rows: &Vec<EmojiRow>, i: usize) -> (b: bool)
    requires
        i < rows@.len(),
    ensures
        b == ids(rows@.map_values(|r: EmojiRow| row_view(r)).take(i as int)).contains(rows@[i as int].1@),
{
    let ghost rv = rows@.map_values(|r: EmojiRow| row_view(r));
    let mut j: usize = 0;
    while j < i
        invariant
            j <= i < rows@.len(),
            rv == rows@.map_values(|r: EmojiRow| row_view(r)),
            forall|k: int| 0 <= k < j ==> rows@[k].1@ != rows@[i as int].1@,
        decreases i - j,
    {
        if text_eq(rows[j].1.as_str(), rows[i].1.as_str()) {
            assert(ids(rv.take(i as int))[j as int] == rows@[i as int].1@);
            return true;
        }
        j = j + 1;
    }
    assert forall|k: int| 0 <= k < i implies ids(rv.take(i as int))[k] != rows@[i as int].1@ by {
        assert(ids(rv.take(i as int))[k] == rows@[k].1@);
    }
    false
}

/// Every use count can take one more.
pub open spec fn uses_below_max(m: Map<Seq<char>, UsageView>) -> bool {
    forall|k: Seq<char>| #[trigger] m.contains_key(k) ==> m[k].use_count < i32::MAX
}

/// Counts handed out by emoji id, with each id as plain characters.
pub open spec fn usage_entries(v: Seq<(String, EmojiUsage)>) -> Seq<(Seq<char>, EmojiUsage)> {
    v.map_values(|e: (String, EmojiUsage)| (e.0@, e.1))
}

proof fn lemma_usage_entries_push(v: Seq<(String, EmojiUsage)>, e: (String, EmojiUsage))
    ensures
        usage_entries(v.push(e)) == usage_entries(v).push((e.0@, e.1)),
{
    assert(usage_entries(v.push(e)) =~= usage_entries(v).push((e.0@, e.1)));
}

/// Emoji counts since the last flush, by emoji id.
pub struct EmojiWatcher {
    cache: Keyed<EmojiUsage>,
}

impl View for EmojiWatcher {
    type V = Map<Seq<char>, UsageView>;

    closed spec fn view(&self) -> Map<Seq<char>, UsageView> {
        self.cache@.map_values(|u: EmojiUsage| usage_view(u))
    }
}

impl EmojiWatcher {
    /// The cache's entries are well formed.
    pub closed spec fn wf(&self) -> bool {
        self.cache.wf()
    }

    /// A watcher that has counted nothing.
    pub fn new() -> (w: Self)
        ensures
            w.wf(),
            w@ == Map::<Seq<char>, UsageView>::empty(),
    {
        let w = EmojiWatcher { cache: Keyed::new() };
        assert(w@ =~= Map::<Seq<char>, UsageView>::empty());
        w
    }

    /// Counts a use of emoji `eid` in a message; an emoji seen for the first time is
    /// recorded with the given name and flags.
    pub fn add_usage(&mut self, eid: String, name: String, is_discord: bool, animated: bool)
        requires
            old(self).wf(),
            old(self)@.contains_key(eid@) ==> old(self)@[eid@].use_count < i32::MAX,
        ensures
            final(self).wf(),
            final(self)@ == with_use(old(self)@, eid@, name@, is_discord, animated),
    {
        let next = match self.cache.get(eid.as_str()) {
            Some(u) => EmojiUsage {
                name: u.name.clone(),
                use_count: u.use_count + 1,
                react_count: u.react_count,
                is_discord: u.is_discord,
                animated: u.animated,
            },
            None => EmojiUsage { name, use_count: 1, react_count: 0, is_discord, animated },
        };
        let ghost k = eid@;
        self.cache.insert(eid, next);
        assert(self@ =~= with_use(old(self)@, k, name@, is_discord, animated));
    }

    fn count_react(&mut self, eid: String, name: String, is_discord: bool, animated: bool, up: bool)
        requires
            old(self).wf(),
            old(self)@.contains_key(eid@) && up ==> old(self)@[eid@].react_count < i32::MAX,
            old(self)@.contains_key(eid@) && !up ==> old(self)@[eid@].react_count > i32::MIN,
        ensures
            final(self).wf(),
            final(self)@ == with_react(
                old(self)@,
                eid@,
                name@,
                is_discord,
                animated,
                if up {
                    1
                } else {
                    -1
                },
            ),
    {
        let delta: i32 = if up {
            1
        } else {
            -1
        };
        let next = match self.cache.get(eid.as_str()) {
            Some(u) => EmojiUsage {
                name: u.name.clone(),
                use_count: u.use_count,
                react_count: u.react_count + delta,
                is_discord: u.is_discord,
                animated: u.animated,
            },
            None => EmojiUsage { name, use_count: 0, react_count: delta, is_discord, animated },
        };
        let ghost k = eid@;
        self.cache.insert(eid, next);
        assert(self@ =~= with_react(old(self)@, k, name@, is_discord, animated, delta as int));
    }

    /// Counts a reaction with emoji `eid`.
    pub fn add_react(&mut self, eid: String, name: String, is_discord: bool, animated: bool)
        requires
            old(self).wf(),
            old(self)@.contains_key(eid@) ==> old(self)@[eid@].react_count < i32::MAX,
        ensures
            final(self).wf(),
            final(self)@ == with_react(old(self)@, eid@, name@, is_discord, animated, 1),
    {
        self.count_react(eid, name, is_discord, animated, true)
    }

    /// Counts the removal of a reaction with emoji `eid`.
    pub fn rm_react(&mut self, eid: String, name: String, is_discord: bool, animated: bool)
        requires
            old(self).wf(),
            old(self)@.contains_key(eid@) ==> old(self)@[eid@].react_count > i32::MIN,
        ensures
            final(self).wf(),
            final(self)@ == with_react(old(self)@, eid@, name@, is_discord, animated, -1),
    {
        self.count_react(eid, name, is_discord, animated, false)
    }

    /// Counts one use of each distinct emoji id among `rows` (see [`with_rows`]).
    pub fn add_rows(&mut self, rows: &Vec<EmojiRow>)
        requires
            old(self).wf(),
            uses_below_max(old(self)@),
        ensures
            final(self).wf(),
            final(self)@ == with_rows(old(self)@, rows@.map_values(|r: EmojiRow| row_view(r))),
    {
        let ghost rv = rows@.map_values(|r: EmojiRow| row_view(r));
        let ghost start = self@;
        let mut i: usize = 0;
        while i < rows.len()
            invariant
                self.wf(),
                i <= rows@.len(),
                rv == rows@.map_values(|r: EmojiRow| row_view(r)),
                self@ == with_rows(start, rv.take(i as int)),
                uses_below_max(start),
                forall|k: Seq<char>|
                    #[trigger] self@.contains_key(k) ==> (ids(rv.take(i as int)).contains(k) || (
                    start.contains_key(k) && self@[k] == start[k])),
                forall|k: Seq<char>|
                    start.contains_key(k) ==> #[trigger] self@.contains_key(k),
            decreases rows@.len() - i,
        {
            assert(rv.take(i + 1).drop_last() =~= rv.take(i as int));
            assert(rv[i as int] == row_view(rows@[i as int]));
            let seen = seen_before(rows, i);
            if !seen {
                assert(!ids(rv.take(i as int)).contains(rv[i as int].1));
                let ghost before = self@;
                let r = &rows[i];
                self.add_usage(r.1.clone(), r.0.clone(), r.2, r.3);
                assert forall|k: Seq<char>| #[trigger] self@.contains_key(k) implies (ids(
                    rv.take(i + 1),
                ).contains(k) || (start.contains_key(k) && self@[k] == start[k])) by {
                    if k == rv[i as int].1 {
                        assert(ids(rv.take(i + 1))[i as int] == k);
                    } else {
                        assert(before.contains_key(k));
                        if ids(rv.take(i as int)).contains(k) {
                            let j = choose|j: int| 0 <= j < i && ids(rv.take(i as int))[j] == k;
                            assert(ids(rv.take(i + 1))[j] == k);
                        }
                    }
                }
            } else {
                assert forall|k: Seq<char>| #[trigger] self@.contains_key(k) implies (ids(
                    rv.take(i + 1),
                ).contains(k) || (start.contains_key(k) && self@[k] == start[k])) by {
                    if ids(rv.take(i as int)).contains(k) {
                        let j = choose|j: int| 0 <= j < i && ids(rv.take(i as int))[j] == k;
                        assert(ids(rv.take(i + 1))[j] == k);
                    }
                }
            }
            i = i + 1;
        }
        assert(rv.take(rows@.len() as int) =~= rv);
    }

    /// Counts the emoji of a message (see [`message_rows`]); messages of bots are
    /// not counted.
    pub fn watch_message(&mut self, content: &str, author_is_bot: bool)
        requires
            old(self).wf(),
            uses_below_max(old(self)@),
        ensures
            final(self).wf(),
            author_is_bot ==> final(self)@ == old(self)@,
            !author_is_bot ==> final(self)@ == with_rows(old(self)@, message_rows(content@)),
    {
        if author_is_bot {
            return;
        }
        let uni = find_unicode_emojis(content);
        let dis = find_discord_emojis(content);
        let ghost uv = unicode_emojis(content@);
        let ghost dv = discord_emoji_captures(content@);
        assert(uni@.len() == uv.len());
        assert(dis@.len() == dv.len());
        let mut rows: Vec<EmojiRow> = Vec::new();
        let mut i: usize = 0;
        while i < uni.len()
            invariant
                i <= uni@.len(),
                rows@.len() == i,
                uv == uni@.map_values(|e: (String, String)| (e.0@, e.1@)),
                forall|j: int|
                    0 <= j < i ==> row_view(#[trigger] rows@[j]) == (uv[j].0, uv[j].1, false, false),
            decreases uni@.len() - i,
        {
            assert(uv[i as int] == (uni@[i as int].0@, uni@[i as int].1@));
            rows.push((uni[i].0.clone(), uni[i].1.clone(), false, false));
            i = i + 1;
        }
        let mut j: usize = 0;
        while j < dis.len()
            invariant
                j <= dis@.len(),
                rows@.len() == uv.len() + j,
                uv.len() == uni@.len(),
                dv == dis@.map_values(|c: (String, String, String)| (c.0@, c.1@, c.2@)),
                forall|k: int|
                    0 <= k < uv.len() ==> row_view(#[trigger] rows@[k]) == (uv[k].0, uv[k].1, false, false),
                forall|k: int|
                    0 <= k < j ==> row_view(#[trigger] rows@[uv.len() + k]) == (
                        dv[k].1,
                        dv[k].2,
                        true,
                        dv[k].0 == "a"@,
                    ),
            decreases dis@.len() - j,
        {
            assert(dv[j as int] == (dis@[j as int].0@, dis@[j as int].1@, dis@[j as int].2@));
            let anim = text_eq(dis[j].0.as_str(), "a");
            rows.push((dis[j].1.clone(), dis[j].2.clone(), true, anim));
            j = j + 1;
            assert(row_view(rows@[uv.len() + j - 1]) == (dv[j - 1].1, dv[j - 1].2, true, dv[j - 1].0 == "a"@));
        }
        assert(rows@.map_values(|r: EmojiRow| row_view(r)) =~= message_rows(content@)) by {
            let m = message_rows(content@);
            assert forall|k: int| 0 <= k < m.len() implies m[k] == row_view(rows@[k]) by {
                if k < uv.len() {
                    assert(row_view(rows@[k]) == (uv[k].0, uv[k].1, false, false));
                } else {
                    let d = k - uv.len();
                    assert(row_view(rows@[uv.len() + d]) == (dv[d].1, dv[d].2, true, dv[d].0 == "a"@));
                }
            }
        }
        self.add_rows(&rows);
    }

    /// Every count since the last flush, as (emoji id, counts), to be written to the
    /// database; the counts stay until [`EmojiWatcher::clear_counts`].
    pub fn pending_counts(&self) -> (v: Vec<(String, EmojiUsage)>)
        requires
            self.wf(),
        ensures
            keys_unique(usage_entries(v@)),
            entries_to_map(usage_entries(v@)).map_values(
                |u: EmojiUsage| usage_view(u),
            ) == self@,
    {
        proof {
            self.cache.lemma_view();
        }
        let ghost s = self.cache.entries();
        let mut v: Vec<(String, EmojiUsage)> = Vec::new();
        let mut i: usize = 0;
        while i < self.cache.len()
            invariant
                i <= s.len(),
                s == self.cache.entries(),
                self.wf(),
                usage_entries(v@) == s.take(i as int),
            decreases s.len() - i,
        {
            let (id, u) = self.cache.entry_at(i);
            let copy = EmojiUsage {
                name: u.name.clone(),
                use_count: u.use_count,
                react_count: u.react_count,
                is_discord: u.is_discord,
                animated: u.animated,
            };
            assert(copy == s[i as int].1);
            let key = id.clone();
            assert(key@ == s[i as int].0);
            let ghost before = v@;
            v.push((key, copy));
            proof {
                lemma_usage_entries_push(before, (key, copy));
                assert(s.take(i + 1) =~= s.take(i as int).push(s[i as int]));
            }
            i = i + 1;
        }
        assert(s.take(s.len() as int) =~= s);
        v
    }

    /// Forgets the counts once they have been written to the database.
    pub fn clear_counts(&mut self)
        ensures
            final(self).wf(),
            final(self)@ == Map::<Seq<char>, UsageView>::empty(),
    {
        self.cache.clear();
        assert(self@ =~= Map::<Seq<char>, UsageView>::empty());
    }
}

/// Adding a reaction and taking it away again leaves an emoji's counts as they were;
/// an emoji not counted before is left with no uses and no reactions.
pub proof fn law_react_round_trip(
    m: Map<Seq<char>, UsageView>,
    eid: Seq<char>,
    name: Seq<char>,
    is_discord: bool,
    animated: bool,
)
    ensures
        m.contains_key(eid) ==> with_react(
            with_react(m, eid, name, is_discord, animated, 1),
            eid,
            name,
            is_discord,
            animated,
            -1,
        ) == m,
        !m.contains_key(eid) ==> with_react(
            with_react(m, eid, name, is_discord, animated, 1),
            eid,
            name,
            is_discord,
            animated,
            -1,
        ) == m.insert(eid, UsageView { name, use_count: 0, react_count: 0, is_discord, animated }),
{
    let r = with_react(
        with_react(m, eid, name, is_discord, animated, 1),
        eid,
        name,
        is_discord,
        animated,
        -1,
    );
    if m.contains_key(eid) {
        assert(r =~= m);
    } else {
        assert(r =~= m.insert(
            eid,
            UsageView { name, use_count: 0, react_count: 0, is_discord, animated },
        ));
    }
}

/// One call that counts an emoji: a use in a message (`add_usage`), or a reaction
/// added (`add_react`, `delta` 1) or taken away (`rm_react`, `delta` -1).
pub struct CountEvent {
    pub eid: Seq<char>,
    pub name: Seq<char>,
    pub is_discord: bool,
    pub animated: bool,
    pub is_use: bool,
    pub delta: int,
}

/// The counts after one call (see [`with_use`] and [`with_react`]).
pub open spec fn apply_event(m: Map<Seq<char>, UsageView>, e: CountEvent) -> Map<Seq<char>, UsageView> {
    if e.is_use {
        with_use(m, e.eid, e.name, e.is_discord, e.animated)
    } else {
        with_react(m, e.eid, e.name, e.is_discord, e.animated, e.delta)
    }
}

/// The counts after the calls `es`, in order.
pub open spec fn apply_events(m: Map<Seq<char>, UsageView>, es: Seq<CountEvent>) -> Map<
    Seq<char>,
    UsageView,
>
    decreases es.len(),
{
    if es.len() == 0 {
        m
    } else {
        apply_event(apply_events(m, es.drop_last()), es.last())
    }
}

/// How many of the calls `es` are uses of emoji `k`.
pub open spec fn uses_of(es: Seq<CountEvent>, k: Seq<char>) -> int
    decreases es.len(),
{
    if es.len() == 0 {
        0
    } else {
        uses_of(es.drop_last(), k) + if es.last().eid == k && es.last().is_use {
            1int
        } else {
            0int
        }
    }
}

/// The reactions with emoji `k` that the calls `es` add, less those they take away.
pub open spec fn reacts_of(es: Seq<CountEvent>, k: Seq<char>) -> int
    decreases es.len(),
{
    if es.len() == 0 {
        0
    } else {
        reacts_of(es.drop_last(), k) + if es.last().eid == k && !es.last().is_use {
            es.last().delta
        } else {
            0int
        }
    }
}

/// The first of the calls `es` that names emoji `k`, if any.
pub open spec fn first_mention(es: Seq<CountEvent>, k: Seq<char>) -> Option<CountEvent>
    decreases es.len(),
{
    if es.len() == 0 {
        None
    } else {
        match first_mention(es.drop_last(), k) {
            Some(e) => Some(e),
            None => if es.last().eid == k {
                Some(es.last())
            } else {
                None
            },
        }
    }
}

/// Starting from a watcher that has counted nothing, whatever order the calls come
/// in: an emoji is counted once some call names it; its use count is the number of
/// its uses, its reaction count the reactions added less those taken away; its name
/// and flags are those of the first call that named it; calls on other emoji never
/// touch it.
pub proof fn law_counts_follow_the_calls(es: Seq<CountEvent>, k: Seq<char>)
    ensures
        apply_events(Map::empty(), es).contains_key(k) <==> first_mention(es, k) is Some,
        first_mention(es, k) matches Some(f) ==> {
            let u = apply_events(Map::empty(), es)[k];
            &&& u.use_count == uses_of(es, k)
            &&& u.react_count == reacts_of(es, k)
            &&& u.name == f.name
            &&& u.is_discord == f.is_discord
            &&& u.animated == f.animated
        },
    decreases es.len(),
{
    if es.len() > 0 {
        let t = es.drop_last();
        let e = es.last();
        law_counts_follow_the_calls(t, k);
        let m = apply_events(Map::empty(), t);
        let m2 = apply_events(Map::empty(), es);
        assert(m2 == apply_event(m, e));
        if e.eid != k {
            assert(m2.contains_key(k) == m.contains_key(k));
            if m.contains_key(k) {
                assert(m2[k] == m[k]);
            }
        } else if m.contains_key(k) {
            assert(m2.contains_key(k));
        } else {
            assert(first_mention(es, k) == Some(e));
            assert(uses_of(t, k) == 0) by {
                lemma_no_mention_no_counts(t, k);
            }
            assert(reacts_of(t, k) == 0) by {
                lemma_no_mention_no_counts(t, k);
            }
        }
    }
}

proof fn lemma_no_mention_no_counts(es: Seq<CountEvent>, k: Seq<char>)
    requires
        first_mention(es, k) is None,
    ensures
        uses_of(es, k) == 0,
        reacts_of(es, k) == 0,
    decreases es.len(),
{
    if es.len() > 0 {
        lemma_no_mention_no_counts(es.drop_last(), k);
    }
}

/// Counting a message adds exactly one use to each emoji id that occurs in it, however
/// often it occurs, and changes nothing else; reactions are untouched.
pub proof fn law_each_id_counted_once(
    m: Map<Seq<char>, UsageView>,
    rows: Seq<(Seq<char>, Seq<char>, bool, bool)>,
)
    ensures
        forall|k: Seq<char>| #[trigger]
            with_rows(m, rows).contains_key(k) <==> m.contains_key(k) || ids(rows).contains(k),
        forall|k: Seq<char>| #[trigger]
            with_rows(m, rows).contains_key(k) ==> with_rows(m, rows)[k].use_count == (if m.contains_key(k) {
                m[k].use_count
            } else {
                0
            }) + (if ids(rows).contains(k) {
                1int
            } else {
                0int
            }) && with_rows(m, rows)[k].react_count == (if m.contains_key(k) {
                m[k].react_count
            } else {
                0
            }),
    decreases rows.len(),
{
    if rows.len() > 0 {
        let t = rows.drop_last();
        law_each_id_counted_once(m, t);
        let r = rows.last();
        assert forall|k: Seq<char>| ids(rows).contains(k) <==> ids(t).contains(k) || k == r.1 by {
            if ids(rows).contains(k) {
                let j = choose|j: int| 0 <= j < ids(rows).len() && ids(rows)[j] == k;
                if j < t.len() {
                    assert(ids(t)[j] == k);
                }
            }
            if ids(t).contains(k) {
                let j = choose|j: int| 0 <= j < ids(t).len() && ids(t)[j] == k;
                assert(ids(rows)[j] == k);
            }
            if k == r.1 {
                assert(ids(rows)[rows.len() - 1] == k);
            }
        }
        let prev = with_rows(m, t);
        assert(with_rows(m, rows) == if ids(t).contains(r.1) {
            prev
        } else {
            with_use(prev, r.1, r.0, r.2, r.3)
        });
        assert forall|k: Seq<char>| #[trigger]
            with_rows(m, rows).contains_key(k) <==> m.contains_key(k) || ids(rows).contains(k) by {
            assert(ids(rows).contains(k) <==> ids(t).contains(k) || k == r.1);
            assert(prev.contains_key(k) <==> m.contains_key(k) || ids(t).contains(k));
        }
        assert forall|k: Seq<char>| #[trigger] with_rows(m, rows).contains_key(k) implies with_rows(
            m,
            rows,
        )[k].use_count == (if m.contains_key(k) {
            m[k].use_count
        } else {
            0
        }) + (if ids(rows).contains(k) {
            1int
        } else {
            0int
        }) && with_rows(m, rows)[k].react_count == (if m.contains_key(k) {
            m[k].react_count
        } else {
            0
        }) by {
            assert(ids(rows).contains(k) <==> ids(t).contains(k) || k == r.1);
            assert(prev.contains_key(k) <==> m.contains_key(k) || ids(t).contains(k));
            if k != r.1 || ids(t).contains(r.1) {
                assert(prev.contains_key(k));
            }
        }
    } else {
        assert(with_rows(m, rows) == m);
        assert forall|k: Seq<char>| !ids(rows).contains(k) by {}
    }
}

/// The character of one codepoint written in hex: U+FFFD for a number that is no
/// character.
pub open spec fn code_char_of(seg: Seq<char>) -> char {
    let v = parse_hex(seg)->0;
    if valid_scalar(v) {
        v as char
    } else {
        '\u{FFFD}'
    }
}

/// The text of the unicode emoji whose codepoints are `code` (hex numbers
/// separated by single spaces): one character per number.
pub open spec fn codepoint_text(code: Seq<char>) -> Seq<char> {
    split_on_space(code).map_values(|seg: Seq<char>| code_char_of(seg))
}

/// Every piece of `code` is a hex number that fits in a `u32`.
pub open spec fn all_hex_codes(code: Seq<char>) -> bool {
    forall|i: int|
        0 <= i < split_on_space(code).len() ==> parse_hex(#[trigger] split_on_space(code)[i]) is Some
}

/// The character of one codepoint.
fn code_char(cur: &Vec<char>) -> (c: char)
    requires
        parse_hex(cur@) is Some,
    ensures
        c == code_char_of(cur@),
{
    let v = parse_hex_u32(cur).unwrap();
    match char_from_u32(v) {
        Some(c) => {
            assert(c == (v as int) as char);
            c
        },
        None => '\u{FFFD}',
    }
}

/// The text of a unicode emoji from its codepoints, as stored for emoji ranks.
pub fn codepoint_to_emoji(code: String) -> (r: String)
    requires
        all_hex_codes(code@),
    ensures
        r@ == codepoint_text(code@),
{
    let cs = chars_of(code.as_str());
    let ghost segs = split_on_space(code@);
    let mut out = String::new();
    let mut cur: Vec<char> = Vec::new();
    let mut i: usize = 0;
    proof {
        lemma_split_nonempty(code@);
        assert(cs@.take(0) =~= Seq::<char>::empty());
        assert(split_on_space(cs@.take(0)) =~= seq![seq![]]);
    }
    while i < cs.len()
        invariant
            i <= cs@.len(),
            cs@ == code@,
            segs == split_on_space(code@),
            all_hex_codes(code@),
            out@.len() == split_on_space(cs@.take(i as int)).len() - 1,
            split_on_space(cs@.take(i as int)).len() >= 1,
            cur@ == split_on_space(cs@.take(i as int)).last(),
            forall|j: int| 0 <= j < out@.len() ==> #[trigger] out@[j] == code_char_of(segs[j]),
        decreases cs@.len() - i,
    {
        let c = cs[i];
        let ghost a = split_on_space(cs@.take(i as int));
        assert(cs@.take(i + 1).drop_last() =~= cs@.take(i as int));
        assert(cs@.take(i + 1).last() == c);
        if c == ' ' {
            proof {
                lemma_split_prefix(code@, i + 1);
                let a2 = split_on_space(cs@.take(i + 1));
                assert(a2 == a.push(seq![]));
                assert(a2[a.len() - 1] == segs[a.len() - 1]);
                assert(parse_hex(segs[a.len() - 1]) is Some);
            }
            let ch = code_char(&cur);
            push_char(&mut out, ch);
            cur = Vec::new();
            proof {
                assert(cur@ =~= split_on_space(cs@.take(i + 1)).last());
            }
        } else {
            cur.push(c);
            proof {
                lemma_split_nonempty(cs@.take(i as int));
            }
        }
        i = i + 1;
    }
    proof {
        assert(cs@.take(cs@.len() as int) =~= cs@);
        assert(parse_hex(segs[segs.len() - 1]) is Some);
    }
    let ch = code_char(&cur);
    push_char(&mut out, ch);
    assert(out@ =~= codepoint_text(code@));
    out
}

/// A row of the emoji ranking, as read from the database.
pub struct RankRow {
    pub is_discord: i8,
    pub animated: i8,
    pub name: String,
    pub eid: String,
    pub count: i64,
}

/// How an emoji of the ranking is shown: a discord emoji by its markup, a unicode
/// emoji by its characters.
pub open spec fn rank_emoji(r: RankRow) -> Seq<char> {
    if r.is_discord == 1 {
        "<"@ + (if r.animated == 1 {
            "a"@
        } else {
            ""@
        }) + ":"@ + r.name@ + ":"@ + r.eid@ + ">"@
    } else {
        codepoint_text(r.eid@)
    }
}

/// Line `i` (from zero) of the ranking.
pub open spec fn rank_line(i: nat, r: RankRow) -> Seq<char> {
    decimal(i + 1) + ". "@ + rank_emoji(r) + " - `"@ + signed_decimal(r.count as int) + "`"@
}

/// The ranking: one line per row, separated by line breaks.
pub open spec fn rank_text(rows: Seq<RankRow>) -> Seq<char>
    decreases rows.len(),
{
    if rows.len() == 0 {
        seq![]
    } else if rows.len() == 1 {
        rank_line(0, rows[0])
    } else {
        rank_text(rows.drop_last()) + "\n"@ + rank_line((rows.len() - 1) as nat, rows.last())
    }
}

/// The unicode rows of a ranking hold valid codepoints.
pub open spec fn rank_rows_ok(rows: Seq<RankRow>) -> bool {
    forall|i: int| 0 <= i < rows.len() && (#[trigger] rows[i]).is_discord != 1 ==> all_hex_codes(rows[i].eid@)
}

/// Writes the ranking of the given rows, best first as they come.
pub fn format_ranks(rows: &Vec<RankRow>) -> (s: String)
    requires
        rank_rows_ok(rows@),
        rows@.len() < usize::MAX,
    ensures
        s@ == rank_text(rows@),
{
    let mut s = String::new();
    let mut i: usize = 0;
    proof {
        reveal_strlit("");
        reveal_strlit("a");
    }
    while i < rows.len()
        invariant
            i <= rows@.len() < usize::MAX,
            rank_rows_ok(rows@),
            s@ == rank_text(rows@.take(i as int)),
        decreases rows@.len() - i,
    {
        let r = &rows[i];
        proof {
            reveal_strlit("");
        }
        assert(rows@.take(i + 1).drop_last() =~= rows@.take(i as int));
        let mut line = String::new();
        push_decimal(&mut line, (i + 1) as u64);
        line.append(". ");
        if r.is_discord == 1 {
            line.append("<");
            if r.animated == 1 {
                line.append("a");
            }
            line.append(":");
            line.append(r.name.as_str());
            line.append(":");
            line.append(r.eid.as_str());
            line.append(">");
        } else {
            assert(all_hex_codes(rows@[i as int].eid@));
            let e = codepoint_to_emoji(r.eid.clone());
            line.append(e.as_str());
        }
        line.append(" - `");
        push_signed_decimal(&mut line, r.count);
        line.append("`");
        assert(line@ =~= rank_line(i as nat, rows@[i as int]));
        if i > 0 {
            s.append("\n");
        }
        s.append(line.as_str());
        i = i + 1;
        assert(s@ =~= rank_text(rows@.take(i as int)));
    }
    assert(rows@.take(rows@.len() as int) =~= rows@);
    s
}

/// The emoji of a reaction.
pub enum ReactionEmoji {
    /// A discord emoji.
    Custom { id: u64, name: Option<String>, animated: bool },
    /// A unicode emoji, as text.
    Unicode(String),
    /// Anything else.
    Other,
}

/// How a reaction is counted, as (emoji id, name, is a discord emoji, animated): a
/// discord emoji by its id and name (`Not Found` without one); a unicode emoji by the
/// codepoints and name of the first emoji that `emojito` finds in it; nothing
/// otherwise.
pub open spec fn reaction_key_of(r: ReactionEmoji) -> Option<(Seq<char>, Seq<char>, bool, bool)> {
    match r {
        ReactionEmoji::Custom { id, name, animated } => Some(
            (
                decimal(id as nat),
                match name {
                    Some(n) => n@,
                    None => "Not Found"@,
                },
                true,
                animated,
            ),
        ),
        ReactionEmoji::Unicode(text) => {
            let found = unicode_emojis(text@);
            if found.len() == 0 {
                None
            } else {
                Some((found[0].1, found[0].0, false, false))
            }
        },
        ReactionEmoji::Other => None,
    }
}

/// How a reaction is counted (see [`reaction_key_of`]).
pub fn reaction_key(r: &ReactionEmoji) -> (k: Option<(String, String, bool, bool)>)
    ensures
        match reaction_key_of(*r) {
            Some(v) => k matches Some(x) && (x.0@, x.1@, x.2, x.3) == v,
            None => k is None,
        },
{
    match r {
        ReactionEmoji::Custom { id, name, animated } => {
            let mut eid = String::new();
            push_decimal(&mut eid, *id);
            proof {
                reveal_strlit("");
            }
            assert(eid@ =~= decimal(*id as nat));
            let n = match name {
                Some(n) => n.clone(),
                None => String::from_str("Not Found"),
            };
            Some((eid, n, true, *animated))
        },
        ReactionEmoji::Unicode(text) => {
            let found = find_unicode_emojis(text.as_str());
            if found.len() == 0 {
                None
            } else {
                proof {
                    assert(found@.map_values(|e: (String, String)| (e.0@, e.1@))[0] == (
                        found@[0].0@,
                        found@[0].1@,
                    ));
                }
                Some((found[0].1.clone(), found[0].0.clone(), false, false))
            }
        },
        ReactionEmoji::Other => None,
    }
}

} // verus!
