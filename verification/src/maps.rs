//! The map cycle files of the servers: adding, removing and listing maps.
use vstd::prelude::*;

use crate::order::{
    dedup_texts, deduped, law_dedup_removes_repeats, law_sort_orders_and_keeps, no_adjacent_repeats,
    sort_texts, sorted_by, sorted_keys, SortKey,
};
use crate::text::{skip_chars, starts_with};

verus! {

/// `p` occurs in `s` (`str::contains`); the empty text occurs everywhere.
pub open spec fn has_part(s: Seq<char>, p: Seq<char>) -> bool {
    exists|i: int| 0 <= i && i + p.len() <= s.len() && #[trigger] s.subrange(i, i + p.len()) == p
}

/// Whether `p` occurs in `s` (see [`has_part`]).
pub fn text_contains(s: &str, p: &str) -> (b: bool)
    ensures
        b == has_part(s@, p@),
{
    let n = s.unicode_len();
    let k = p.unicode_len();
    if k > n {
        return false;
    }
    let last = n - k;
    let mut i: usize = 0;
    loop
        invariant
            k <= n,
            n == s@.len(),
            k == p@.len(),
            last == n - k,
            i <= last,
            forall|j: int| 0 <= j < i ==> #[trigger] s@.subrange(j, j + k) != p@,
        decreases last - i,
    {
        let rest = skip_chars(s, i);
        if starts_with(rest, p) {
            assert(s@.subrange(i as int, i + k) =~= rest@.take(k as int));
            return true;
        }
        assert(s@.subrange(i as int, i + k) =~= rest@.take(k as int));
        if i == last {
            return false;
        }
        i = i + 1;
    }
}

/// The position of the first map whose name contains `filter`.
pub open spec fn first_match(maps: Seq<Seq<char>>, filter: Seq<char>) -> Option<int> {
    if exists|i: int| 0 <= i < maps.len() && has_part(#[trigger] maps[i], filter) {
        Some(choose|i: int| 0 <= i < maps.len() && has_part(#[trigger] maps[i], filter) && forall|j: int|
            0 <= j < i ==> !has_part(#[trigger] maps[j], filter))
    } else {
        None
    }
}

/// The map list with `map` added: sorted by name, a `workshop/` prefix ignored, equal
/// names kept in order, and repeated lines dropped.
pub open spec fn with_map(maps: Seq<Seq<char>>, map: Seq<char>) -> Seq<Seq<char>> {
    deduped(sorted_by(maps.push(map), SortKey::WithoutWorkshop))
}

/// The texts of a list of strings.
pub open spec fn views(v: Seq<String>) -> Seq<Seq<char>> {
    v.map_values(|s: String| s@)
}

/// Adding a map gives a list sorted by name (a `workshop/` prefix ignored), with no
/// line right after an equal one, that holds the new map and, besides it, exactly
/// the maps that were there.
pub proof fn law_add_map(maps: Seq<Seq<char>>, map: Seq<char>)
    ensures
        sorted_keys(with_map(maps, map), SortKey::WithoutWorkshop),
        no_adjacent_repeats(with_map(maps, map)),
        forall|e: Seq<char>| #[trigger] with_map(maps, map).contains(e) <==> (maps.contains(e) || e == map),
{
    broadcast use vstd::seq_lib::group_to_multiset_ensures;
    broadcast use vstd::seq_lib::group_seq_properties;

    let all = maps.push(map);
    let sorted = sorted_by(all, SortKey::WithoutWorkshop);
    law_sort_orders_and_keeps(all, SortKey::WithoutWorkshop);
    law_dedup_removes_repeats(sorted, SortKey::WithoutWorkshop);
    assert forall|e: Seq<char>| #[trigger] sorted.contains(e) <==> all.contains(e) by {
        assert(sorted.to_multiset().count(e) == all.to_multiset().count(e));
    }
    assert forall|e: Seq<char>| #[trigger] with_map(maps, map).contains(e) <==> (maps.contains(e) || e
        == map) by {
        assert(with_map(maps, map) == deduped(sorted));
        assert(deduped(sorted).contains(e) <==> sorted.contains(e));
        assert(all.contains(e) <==> (maps.contains(e) || e == map));
    }
}

/// Adds a map to a map list (see [`with_map`]).
pub fn add_map(maps: &Vec<String>, map: &str) -> (r: Vec<String>)
    ensures
        views(r@) == with_map(views(maps@), map@),
{
    let mut all = maps.clone();
    proof {
        assert forall|i: int| 0 <= i < maps@.len() implies all@[i]@ == maps@[i]@ by {
            assert(cloned::<String>(maps@[i], all@[i]));
        }
    }
    all.push(map.to_owned());
    assert(views(all@) =~= views(maps@).push(map@)) by {
        assert forall|i: int| 0 <= i < maps@.len() implies views(all@)[i] == views(maps@)[i] by {
            assert(cloned::<String>(maps@[i], all@[i]));
        }
    }
    let sorted = sort_texts(&all, SortKey::WithoutWorkshop);
    dedup_texts(&sorted)
}

/// The first map whose name contains `filter`, by position.
pub fn find_map(maps: &Vec<String>, filter: &str) -> (r: Option<usize>)
    ensures
        match r {
            Some(i) => first_match(views(maps@), filter@) == Some(i as int) && i < maps@.len(),
            None => first_match(views(maps@), filter@) is None,
        },
{
    let ghost mv = views(maps@);
    let mut i: usize = 0;
    while i < maps.len()
        invariant
            i <= maps@.len(),
            mv == views(maps@),
            forall|j: int| 0 <= j < i ==> !has_part(#[trigger] mv[j], filter@),
        decreases maps@.len() - i,
    {
        assert(mv[i as int] == maps@[i as int]@);
        if text_contains(maps[i].as_str(), filter) {
            proof {
                let c = choose|c: int| 0 <= c < mv.len() && has_part(#[trigger] mv[c], filter@) && forall|j: int|
                    0 <= j < c ==> !has_part(#[trigger] mv[j], filter@);
                assert(0 <= i < mv.len() && has_part(mv[i as int], filter@) && forall|j: int|
                    0 <= j < i ==> !has_part(#[trigger] mv[j], filter@));
                if c < i {
                    assert(!has_part(mv[c], filter@));
                } else if c > i {
                    assert(!has_part(mv[i as int], filter@));
                }
            }
            return Some(i);
        }
        i = i + 1;
    }
    None
}

/// Removes the first map whose name contains `filter`, and gives it back.
pub fn remove_map(maps: &mut Vec<String>, filter: &str) -> (r: Option<String>)
    ensures
        match first_match(views(old(maps)@), filter@) {
            Some(i) => r matches Some(m) && m@ == views(old(maps)@)[i] && views(final(maps)@) == views(
                old(maps)@,
            ).remove(i),
            None => r is None && final(maps)@ == old(maps)@,
        },
{
    match find_map(maps, filter) {
        Some(i) => {
            let m = maps.remove(i);
            assert(views(maps@) =~= views(old(maps)@).remove(i as int));
            Some(m)
        },
        None => None,
    }
}

/// The maps whose names contain the filter (all of them without one), in order.
pub open spec fn listed(maps: Seq<Seq<char>>, filter: Option<Seq<char>>) -> Seq<Seq<char>>
    decreases maps.len(),
{
    if maps.len() == 0 {
        seq![]
    } else {
        let prev = listed(maps.drop_last(), filter);
        match filter {
            Some(f) => if has_part(maps.last(), f) {
                prev.push(maps.last())
            } else {
                prev
            },
            None => prev.push(maps.last()),
        }
    }
}

/// The maps whose names contain the filter, in order.
pub fn list_maps(maps: &Vec<String>, filter: Option<&str>) -> (r: Vec<String>)
    ensures
        views(r@) == listed(views(maps@), match filter {
            Some(f) => Some(f@),
            None => None,
        }),
{
    let ghost f = match filter {
        Some(f) => Some(f@),
        None => None,
    };
    let ghost mv = views(maps@);
    let mut out: Vec<String> = Vec::new();
    let mut i: usize = 0;
    while i < maps.len()
        invariant
            i <= maps@.len(),
            mv == views(maps@),
            f == match filter {
                Some(f) => Some(f@),
                None => None,
            },
            views(out@) == listed(mv.take(i as int), f),
        decreases maps@.len() - i,
    {
        assert(mv.take(i + 1).drop_last() =~= mv.take(i as int));
        assert(mv[i as int] == maps@[i as int]@);
        let keep = match filter {
            Some(p) => text_contains(maps[i].as_str(), p),
            None => true,
        };
        if keep {
            out.push(maps[i].clone());
            assert(views(out@) =~= listed(mv.take(i + 1), f));
        }
        i = i + 1;
    }
    assert(mv.take(maps@.len() as int) =~= mv);
    out
}

/// Lines joined with line breaks, as `[String]::join("\n")` does.
pub open spec fn joined(lines: Seq<Seq<char>>) -> Seq<char>
    decreases lines.len(),
{
    if lines.len() == 0 {
        seq![]
    } else if lines.len() == 1 {
        lines[0]
    } else {
        joined(lines.drop_last()) + "\n"@ + lines.last()
    }
}

/// Joins lines with line breaks (see [`joined`]).
pub fn join_lines(lines: &Vec<String>) -> (s: String)
    ensures
        s@ == joined(views(lines@)),
{
    let ghost lv = views(lines@);
    let mut s = String::new();
    let mut i: usize = 0;
    while i < lines.len()
        invariant
            i <= lines@.len(),
            lv == views(lines@),
            s@ == joined(lv.take(i as int)),
        decreases lines@.len() - i,
    {
        assert(lv.take(i + 1).drop_last() =~= lv.take(i as int));
        assert(lv[i as int] == lines@[i as int]@);
        if i > 0 {
            s.append("\n");
        }
        s.append(lines[i].as_str());
        i = i + 1;
        proof {
            reveal_strlit("");
        }
        assert(s@ =~= joined(lv.take(i as int)));
    }
    assert(lv.take(lines@.len() as int) =~= lv);
    s
}

} // verus!
