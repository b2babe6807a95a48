//! Suggestions while a command option is typed: the players online and the servers
//! whose names hold what was typed so far, case ignored.
use vstd::prelude::*;

use crate::maps::{has_part, text_contains};

verus! {

/// What `str::to_lowercase` makes of a text.
pub uninterp spec fn lowercased(s: Seq<char>) -> Seq<char>;

/// Calls `str::to_lowercase`.
#[verifier::external_body]
pub(crate) fn to_lowercase(s: &str) -> (r: String)
    ensures
        r@ == lowercased(s@),
{
    s.to_lowercase()
}

/// A name matches what was typed so far when, both lowercased, the name holds it.
pub open spec fn name_matches(name: Seq<char>, partial: Seq<char>) -> bool {
    has_part(lowercased(name), lowercased(partial))
}

/// Whether a name matches what was typed so far (see [`name_matches`]).
pub fn matches_partial(name: &str, partial: &str) -> (b: bool)
    ensures
        b == name_matches(name@, partial@),
{
    let n = to_lowercase(name);
    let p = to_lowercase(partial);
    text_contains(n.as_str(), p.as_str())
}

/// A player online: their name and steam id.
pub struct OnlinePlayer {
    pub name: String,
    pub id: String,
}

/// The players whose names match, in order.
pub open spec fn matching_players(ps: Seq<OnlinePlayer>, partial: Seq<char>) -> Seq<OnlinePlayer>
    decreases ps.len(),
{
    if ps.len() == 0 {
        seq![]
    } else if name_matches(ps.last().name@, partial) {
        matching_players(ps.drop_last(), partial).push(ps.last())
    } else {
        matching_players(ps.drop_last(), partial)
    }
}

/// The (label, value) of a suggestion, as texts.
pub open spec fn choice_views(v: Seq<(String, String)>) -> Seq<(Seq<char>, Seq<char>)> {
    v.map_values(|c: (String, String)| (c.0@, c.1@))
}

/// The suggestions of players by name: each matching player, labelled and valued by
/// their name (`by_id` false), or labelled by name and id and valued by their steam
/// id (`by_id` true).
pub open spec fn player_choices_of(ps: Seq<OnlinePlayer>, partial: Seq<char>, by_id: bool) -> Seq<
    (Seq<char>, Seq<char>),
> {
    matching_players(ps, partial).map_values(
        |p: OnlinePlayer|
            if by_id {
                (p.name@ + " "@ + p.id@, p.id@)
            } else {
                (p.name@, p.name@)
            },
    )
}

/// Suggests the players online whose names match (see [`player_choices_of`]).
pub fn player_choices(players: &Vec<OnlinePlayer>, partial: &str, by_id: bool) -> (v: Vec<(String, String)>)
    ensures
        choice_views(v@) == player_choices_of(players@, partial@, by_id),
{
    let mut v: Vec<(String, String)> = Vec::new();
    let mut i: usize = 0;
    while i < players.len()
        invariant
            i <= players@.len(),
            choice_views(v@) == player_choices_of(players@.take(i as int), partial@, by_id),
        decreases players@.len() - i,
    {
        let ghost before = players@.take(i as int);
        assert(players@.take(i + 1).drop_last() =~= before);
        assert(players@.take(i + 1).last() == players@[i as int]);
        let ghost mp = matching_players(before, partial@);
        let ghost old_v = choice_views(v@);
        let p = &players[i];
        if matches_partial(p.name.as_str(), partial) {
            let choice = if by_id {
                let mut label = p.name.clone();
                label.append(" ");
                label.append(p.id.as_str());
                (label, p.id.clone())
            } else {
                (p.name.clone(), p.name.clone())
            };
            proof {
                assert(matching_players(players@.take(i + 1), partial@) == mp.push(players@[i as int]));
                assert(player_choices_of(players@.take(i + 1), partial@, by_id) =~= old_v.push(
                    (choice.0@, choice.1@),
                ));
            }
            v.push(choice);
            assert(choice_views(v@) =~= old_v.push((choice.0@, choice.1@)));
        } else {
            assert(matching_players(players@.take(i + 1), partial@) == mp);
        }
        i = i + 1;
    }
    assert(players@.take(players@.len() as int) =~= players@);
    v
}

/// The positions of the names that match, in order.
pub open spec fn matching_positions(names: Seq<Seq<char>>, partial: Seq<char>) -> Seq<usize>
    decreases names.len(),
{
    if names.len() == 0 {
        seq![]
    } else if name_matches(names.last(), partial) {
        matching_positions(names.drop_last(), partial).push((names.len() - 1) as usize)
    } else {
        matching_positions(names.drop_last(), partial)
    }
}

/// Suggests the servers whose names match, by position (see [`matching_positions`]).
pub fn server_choices(names: &Vec<String>, partial: &str) -> (v: Vec<usize>)
    ensures
        v@ == matching_positions(names@.map_values(|n: String| n@), partial@),
{
    let ghost nv = names@.map_values(|n: String| n@);
    let mut v: Vec<usize> = Vec::new();
    let mut i: usize = 0;
    while i < names.len()
        invariant
            i <= names@.len(),
            nv == names@.map_values(|n: String| n@),
            v@ == matching_positions(nv.take(i as int), partial@),
        decreases names@.len() - i,
    {
        assert(nv.take(i + 1).drop_last() =~= nv.take(i as int));
        assert(nv.take(i + 1).last() == names@[i as int]@);
        if matches_partial(names[i].as_str(), partial) {
            v.push(i);
        }
        i = i + 1;
    }
    assert(nv.take(names@.len() as int) =~= nv);
    v
}

} // verus!
