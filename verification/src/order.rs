//! Ordering texts the way `String`'s `Ord` does, and the stable sort and dedup of
//! `Vec` over such an order.
use vstd::prelude::*;

use crate::text::{chars_of, starts_with, skip_chars, text_eq};

verus! {

/// `a` comes before `b` in the order of `String`: character by character (the
/// order of their codes, which is the order of their UTF-8 bytes), a proper prefix
/// first.
pub open spec fn lex_lt(a: Seq<char>, b: Seq<char>) -> bool
    decreases a.len(),
{
    if a.len() == 0 {
        b.len() > 0
    } else if b.len() == 0 {
        false
    } else if a[0] != b[0] {
        a[0] < b[0]
    } else {
        lex_lt(a.skip(1), b.skip(1))
    }
}

/// Whether `a` comes before `b` (see [`lex_lt`]).
pub fn text_lt(a: &str, b: &str) -> (r: bool)
    ensures
        r == lex_lt(a@, b@),
{
    let x = chars_of(a);
    let y = chars_of(b);
    let mut i: usize = 0;
    assert(a@.skip(0) =~= a@);
    assert(b@.skip(0) =~= b@);
    while i < x.len() && i < y.len()
        invariant
            i <= x@.len(),
            i <= y@.len(),
            x@ == a@,
            y@ == b@,
            lex_lt(a@, b@) == lex_lt(a@.skip(i as int), b@.skip(i as int)),
        decreases x@.len() - i,
    {
        assert(a@.skip(i as int)[0] == x@[i as int]);
        assert(b@.skip(i as int)[0] == y@[i as int]);
        if x[i] != y[i] {
            return x[i] < y[i];
        }
        assert(a@.skip(i as int).skip(1) =~= a@.skip(i + 1));
        assert(b@.skip(i as int).skip(1) =~= b@.skip(i + 1));
        i = i + 1;
    }
    i == x.len() && i < y.len()
}

/// What texts are sorted by.
#[derive(Debug, Clone, Copy, PartialEq, Eq, Structural)]
pub enum SortKey {
    /// The whole text.
    Whole,
    /// The text without a leading `workshop/`.
    WithoutWorkshop,
}

/// The key of a text.
pub open spec fn sort_key(m: SortKey, s: Seq<char>) -> Seq<char> {
    match m {
        SortKey::Whole => s,
        SortKey::WithoutWorkshop => if s.len() >= 9 && s.take(9) == "workshop/"@ {
            s.skip(9)
        } else {
            s
        },
    }
}

/// `t` with `x` inserted after every element whose key does not come after its
/// own: one step of a stable insertion sort.
pub open spec fn insert_sorted(t: Seq<Seq<char>>, x: Seq<char>, m: SortKey) -> Seq<Seq<char>>
    decreases t.len(),
{
    if t.len() == 0 {
        seq![x]
    } else if !lex_lt(sort_key(m, x), sort_key(m, t.last())) {
        t.push(x)
    } else {
        insert_sorted(t.drop_last(), x, m).push(t.last())
    }
}

/// `s` sorted by key, equal keys keeping their order: what a stable sort such as
/// `slice::sort_by` gives.
pub open spec fn sorted_by(s: Seq<Seq<char>>, m: SortKey) -> Seq<Seq<char>>
    decreases s.len(),
{
    if s.len() == 0 {
        s
    } else {
        insert_sorted(sorted_by(s.drop_last(), m), s.last(), m)
    }
}

/// `s` without elements equal to the one before them, as `Vec::dedup` leaves it.
pub open spec fn deduped(s: Seq<Seq<char>>) -> Seq<Seq<char>>
    decreases s.len(),
{
    if s.len() < 2 {
        s
    } else if s.last() == s[s.len() - 2] {
        deduped(s.drop_last())
    } else {
        deduped(s.drop_last()).push(s.last())
    }
}

/// The key of a text.
fn key_of(m: SortKey, s: &str) -> (r: &str)
    ensures
        r@ == sort_key(m, s@),
{
    proof {
        reveal_strlit("workshop/");
    }
    match m {
        SortKey::Whole => s,
        SortKey::WithoutWorkshop => {
            if starts_with(s, "workshop/") {
                skip_chars(s, 9)
            } else {
                s
            }
        },
    }
}

proof fn lemma_insert_at(t: Seq<Seq<char>>, x: Seq<char>, m: SortKey, i: int)
    requires
        0 <= i <= t.len(),
        forall|k: int| i <= k < t.len() ==> lex_lt(sort_key(m, x), sort_key(m, #[trigger] t[k])),
        i == 0 || !lex_lt(sort_key(m, x), sort_key(m, t[i - 1])),
    ensures
        insert_sorted(t, x, m) == t.take(i).push(x) + t.skip(i),
    decreases t.len(),
{
    if t.len() == 0 {
        assert(t.take(i).push(x) + t.skip(i) =~= seq![x]);
    } else if i == t.len() {
        assert(t.take(i).push(x) + t.skip(i) =~= t.push(x));
    } else {
        let u = t.drop_last();
        assert(lex_lt(sort_key(m, x), sort_key(m, t[t.len() - 1])));
        assert forall|k: int| i <= k < u.len() implies lex_lt(sort_key(m, x), sort_key(m, #[trigger] u[k])) by {
            assert(u[k] == t[k]);
        }
        if i > 0 {
            assert(u[i - 1] == t[i - 1]);
        }
        lemma_insert_at(u, x, m, i);
        assert(insert_sorted(t, x, m) == insert_sorted(u, x, m).push(t.last()));
        assert(u.take(i).push(x) + u.skip(i) + seq![t.last()] =~= t.take(i).push(x) + t.skip(i));
    }
}

/// Keys never decrease along `s`.
pub open spec fn sorted_keys(s: Seq<Seq<char>>, m: SortKey) -> bool {
    forall|i: int, j: int|
        0 <= i < j < s.len() ==> !lex_lt(sort_key(m, #[trigger] s[j]), sort_key(m, #[trigger] s[i]))
}

/// No element equals the one right after it.
pub open spec fn no_adjacent_repeats(s: Seq<Seq<char>>) -> bool {
    forall|i: int, j: int| 0 <= i && j == i + 1 && j < s.len() ==> #[trigger] s[i] != #[trigger] s[j]
}

proof fn lemma_lex_irreflexive(a: Seq<char>)
    ensures
        !lex_lt(a, a),
    decreases a.len(),
{
    if a.len() > 0 {
        lemma_lex_irreflexive(a.skip(1));
    }
}

proof fn lemma_lex_total(a: Seq<char>, b: Seq<char>)
    ensures
        lex_lt(a, b) || lex_lt(b, a) || a == b,
    decreases a.len(),
{
    if a.len() == 0 && b.len() == 0 {
        assert(a =~= b);
    } else if a.len() > 0 && b.len() > 0 && a[0] == b[0] {
        lemma_lex_total(a.skip(1), b.skip(1));
        if a.skip(1) == b.skip(1) {
            assert(a =~= b) by {
                assert(a.skip(1).len() == a.len() - 1 && b.skip(1).len() == b.len() - 1);
                assert(a.len() == b.len());
                assert forall|i: int| 0 <= i < a.len() implies a[i] == b[i] by {
                    if i > 0 {
                        assert(a[i] == a.skip(1)[i - 1]);
                        assert(b[i] == b.skip(1)[i - 1]);
                    }
                }
            }
        }
    }
}

proof fn lemma_lex_transitive(a: Seq<char>, b: Seq<char>, c: Seq<char>)
    requires
        lex_lt(a, b),
        lex_lt(b, c),
    ensures
        lex_lt(a, c),
    decreases a.len(),
{
    if a.len() > 0 && a[0] == b[0] && b[0] == c[0] {
        lemma_lex_transitive(a.skip(1), b.skip(1), c.skip(1));
    }
}

/// Not after: `a` does not come after `b`, `b` not after `c`, so `a` not after `c`.
proof fn lemma_lex_le_transitive(a: Seq<char>, b: Seq<char>, c: Seq<char>)
    requires
        !lex_lt(b, a),
        !lex_lt(c, b),
    ensures
        !lex_lt(c, a),
{
    lemma_lex_total(a, b);
    if lex_lt(c, a) && lex_lt(a, b) {
        lemma_lex_transitive(c, a, b);
    }
}

proof fn lemma_lex_asymmetric(a: Seq<char>, b: Seq<char>)
    requires
        lex_lt(a, b),
    ensures
        !lex_lt(b, a),
{
    if lex_lt(b, a) {
        lemma_lex_transitive(a, b, a);
        lemma_lex_irreflexive(a);
    }
}

proof fn lemma_insert_sorted(t: Seq<Seq<char>>, x: Seq<char>, m: SortKey)
    ensures
        insert_sorted(t, x, m).to_multiset() =~= t.to_multiset().insert(x),
        sorted_keys(t, m) ==> sorted_keys(insert_sorted(t, x, m), m),
    decreases t.len(),
{
    broadcast use vstd::seq_lib::group_to_multiset_ensures;

    let kx = sort_key(m, x);
    if t.len() == 0 {
        assert(seq![x] =~= Seq::<Seq<char>>::empty().push(x));
        assert(Seq::<Seq<char>>::empty().to_multiset() =~= t.to_multiset()) by {
            assert(t =~= Seq::<Seq<char>>::empty());
        }
    } else if !lex_lt(kx, sort_key(m, t.last())) {
        let r = t.push(x);
        if sorted_keys(t, m) {
            assert forall|i: int, j: int| 0 <= i < j < r.len() implies !lex_lt(
                sort_key(m, #[trigger] r[j]),
                sort_key(m, #[trigger] r[i]),
            ) by {
                if j == t.len() {
                    if i < t.len() - 1 {
                        assert(!lex_lt(sort_key(m, t[t.len() - 1]), sort_key(m, t[i])));
                        lemma_lex_le_transitive(sort_key(m, t[i]), sort_key(m, t.last()), kx);
                    }
                } else {
                    assert(r[i] == t[i] && r[j] == t[j]);
                }
            }
        }
    } else {
        let u = t.drop_last();
        let last = t.last();
        lemma_insert_sorted(u, x, m);
        let r0 = insert_sorted(u, x, m);
        assert(t =~= u.push(last));
        assert(insert_sorted(t, x, m) == r0.push(last));
        if sorted_keys(t, m) {
            assert(sorted_keys(u, m)) by {
                assert forall|i: int, j: int| 0 <= i < j < u.len() implies !lex_lt(
                    sort_key(m, #[trigger] u[j]),
                    sort_key(m, #[trigger] u[i]),
                ) by {
                    assert(u[i] == t[i] && u[j] == t[j]);
                }
            }
            assert forall|i: int| 0 <= i < r0.len() implies !lex_lt(
                sort_key(m, last),
                sort_key(m, #[trigger] r0[i]),
            ) by {
                let e = r0[i];
                assert(r0.contains(e));
                if e == x {
                    lemma_lex_asymmetric(kx, sort_key(m, last));
                } else {
                    assert(u.to_multiset().insert(x).count(e) > 0);
                    assert(u.to_multiset().count(e) > 0);
                    assert(u.contains(e));
                    let k = choose|k: int| 0 <= k < u.len() && u[k] == e;
                    assert(t[k] == e);
                    assert(!lex_lt(sort_key(m, t[t.len() - 1]), sort_key(m, t[k])));
                }
            }
            let r = r0.push(last);
            assert forall|i: int, j: int| 0 <= i < j < r.len() implies !lex_lt(
                sort_key(m, #[trigger] r[j]),
                sort_key(m, #[trigger] r[i]),
            ) by {
                if j == r0.len() {
                    assert(r[i] == r0[i]);
                } else {
                    assert(r[i] == r0[i] && r[j] == r0[j]);
                }
            }
        }
    }
}

/// Sorting puts the keys in order (see [`sorted_keys`]) and keeps every text, as
/// often as it occurs.
pub proof fn law_sort_orders_and_keeps(s: Seq<Seq<char>>, m: SortKey)
    ensures
        sorted_keys(sorted_by(s, m), m),
        sorted_by(s, m).to_multiset() == s.to_multiset(),
    decreases s.len(),
{
    broadcast use vstd::seq_lib::group_to_multiset_ensures;

    if s.len() == 0 {
    } else {
        law_sort_orders_and_keeps(s.drop_last(), m);
        lemma_insert_sorted(sorted_by(s.drop_last(), m), s.last(), m);
        assert(s =~= s.drop_last().push(s.last()));
    }
}

/// Dedup keeps exactly the texts that occur, leaves no text right after an equal
/// one, keeps the last text last, and keeps a sorted list sorted.
pub proof fn law_dedup_removes_repeats(s: Seq<Seq<char>>, m: SortKey)
    ensures
        forall|e: Seq<char>| deduped(s).contains(e) <==> s.contains(e),
        no_adjacent_repeats(deduped(s)),
        s.len() > 0 ==> deduped(s).len() > 0 && deduped(s).last() == s.last(),
        sorted_keys(s, m) ==> sorted_keys(deduped(s), m),
    decreases s.len(),
{
    broadcast use vstd::seq_lib::group_seq_properties;

    if s.len() < 2 {
    } else {
        let d = s.drop_last();
        let last = s.last();
        law_dedup_removes_repeats(d, m);
        assert(s =~= d.push(last));
        let dd = deduped(d);
        assert(d.last() == s[s.len() - 2]);
        assert(sorted_keys(s, m) ==> sorted_keys(d, m)) by {
            if sorted_keys(s, m) {
                assert forall|i: int, j: int| 0 <= i < j < d.len() implies !lex_lt(
                    sort_key(m, #[trigger] d[j]),
                    sort_key(m, #[trigger] d[i]),
                ) by {
                    assert(d[i] == s[i] && d[j] == s[j]);
                }
            }
        }
        if last == s[s.len() - 2] {
            assert forall|e: Seq<char>| deduped(s).contains(e) <==> s.contains(e) by {
                if s.contains(e) && e == last {
                    assert(d.contains(d.last()));
                }
            }
        } else {
            let r = dd.push(last);
            assert(deduped(s) == r);
            assert forall|i: int, j: int| 0 <= i && j == i + 1 && j < r.len() implies #[trigger] r[i]
                != #[trigger] r[j] by {
                if j == dd.len() {
                    assert(r[i] == dd.last());
                } else {
                    assert(r[i] == dd[i] && r[j] == dd[j]);
                }
            }
            if sorted_keys(s, m) {
                assert forall|i: int, j: int| 0 <= i < j < r.len() implies !lex_lt(
                    sort_key(m, #[trigger] r[j]),
                    sort_key(m, #[trigger] r[i]),
                ) by {
                    if j == dd.len() {
                        let e = dd[i];
                        assert(r[i] == e);
                        assert(dd.contains(e));
                        assert(d.contains(e));
                        let k = choose|k: int| 0 <= k < d.len() && d[k] == e;
                        assert(s[k] == e);
                        assert(!lex_lt(sort_key(m, s[s.len() - 1]), sort_key(m, s[k])));
                    } else {
                        assert(r[i] == dd[i] && r[j] == dd[j]);
                    }
                }
            }
        }
    }
}

/// Sorts texts stably by key (see [`sorted_by`]).
pub fn sort_texts(v: &Vec<String>, m: SortKey) -> (r: Vec<String>)
    ensures
        r@.map_values(|s: String| s@) == sorted_by(v@.map_values(|s: String| s@), m),
{
    let ghost sv = v@.map_values(|s: String| s@);
    let mut out: Vec<String> = Vec::new();
    let mut i: usize = 0;
    assert(sv.take(0) =~= Seq::<Seq<char>>::empty());
    assert(out@.map_values(|s: String| s@) =~= Seq::<Seq<char>>::empty());
    while i < v.len()
        invariant
            i <= v@.len(),
            sv == v@.map_values(|s: String| s@),
            out@.map_values(|s: String| s@) == sorted_by(sv.take(i as int), m),
        decreases v@.len() - i,
    {
        let ghost ov = out@.map_values(|s: String| s@);
        let x = v[i].clone();
        assert(x@ == sv[i as int]);
        let kx = key_of(m, x.as_str());
        let mut j = out.len();
        while j > 0 && text_lt(kx, key_of(m, out[j - 1].as_str()))
            invariant
                j <= out@.len(),
                ov == out@.map_values(|s: String| s@),
                kx@ == sort_key(m, x@),
                forall|k: int| j <= k < ov.len() ==> lex_lt(sort_key(m, x@), sort_key(m, #[trigger] ov[k])),
            decreases j,
        {
            assert(ov[j - 1] == out@[j - 1]@);
            j = j - 1;
        }
        proof {
            if j > 0 {
                assert(ov[j - 1] == out@[j - 1]@);
            }
            lemma_insert_at(ov, x@, m, j as int);
            assert(sv.take(i + 1).drop_last() =~= sv.take(i as int));
            assert(sv.take(i + 1).last() == x@);
        }
        out.insert(j, x);
        assert(out@.map_values(|s: String| s@) =~= ov.take(j as int).push(x@) + ov.skip(j as int));
        i = i + 1;
    }
    assert(sv.take(v@.len() as int) =~= sv);
    out
}

/// Removes elements equal to the one before them (see [`deduped`]).
pub fn dedup_texts(v: &Vec<String>) -> (r: Vec<String>)
    ensures
        r@.map_values(|s: String| s@) == deduped(v@.map_values(|s: String| s@)),
{
    let ghost sv = v@.map_values(|s: String| s@);
    let mut out: Vec<String> = Vec::new();
    let mut i: usize = 0;
    assert(out@.map_values(|s: String| s@) =~= deduped(sv.take(0)));
    while i < v.len()
        invariant
            i <= v@.len(),
            sv == v@.map_values(|s: String| s@),
            out@.map_values(|s: String| s@) == deduped(sv.take(i as int)),
        decreases v@.len() - i,
    {
        let ghost ov = out@.map_values(|s: String| s@);
        assert(sv.take(i + 1).drop_last() =~= sv.take(i as int));
        assert(sv[i as int] == v@[i as int]@);
        let same = i > 0 && text_eq(v[i].as_str(), v[i - 1].as_str());
        proof {
            if i > 0 {
                assert(sv[i - 1] == v@[i - 1]@);
                assert(sv.take(i + 1)[i - 1] == sv[i - 1]);
            }
        }
        if !same {
            out.push(v[i].clone());
            assert(out@.map_values(|s: String| s@) =~= ov.push(sv[i as int]));
        }
        i = i + 1;
    }
    assert(sv.take(v@.len() as int) =~= sv);
    out
}

} // verus!
