//! The TF2 classes that members list on their profiles: the menu in which they pick
//! them, and who in a voice channel plays what.
use vstd::prelude::*;

use crate::maps::{join_lines, joined, views};
use crate::patterns::{discord_emoji_captures, find_discord_emojis};
use crate::poker::EmbedField;
use crate::text::{decimal, get_bit, parse_u64, parse_unsigned, push_decimal};
use crate::wallet::{at, push_mention};

verus! {

/// The names of the classes, in the order of their bits in a profile.
pub const CLASS_NAMES: [&'static str; 9] = [
    "Scout",
    "Soldier",
    "Pyro",
    "Demo",
    "Heavy",
    "Engineer",
    "Medic",
    "Sniper",
    "Spy",
];

/// The line under each class in the class menu.
pub const CLASS_BLURBS: [&'static str; 9] = [
    "Next time eat a salad",
    "You were good son real good. maybe even the best.",
    "Mmph!",
    "anyofyouthinkyerebetternmeyergoinhavnotherthingcomin",
    "Poot Dispenser Here",
    "Nope",
    "Ze healing is not as rewarding as ze hurting",
    "Wave goodbye to ya head wanker!",
    "Pornography",
];

/// The bits of the classes a team needs, whose players are listed: scout, soldier,
/// demo and medic.
pub const TEAM_CLASS_BITS: [u8; 4] = [0, 1, 3, 6];

/// The id of the class menu.
pub const CLASS_MENU_ID: &'static str = "profile.edit.class.select";

/// The id of a discord emoji written `<:name:id>`: the id of the first such emoji in
/// the text, when it is a number.
pub open spec fn emoji_id_of(s: Seq<char>) -> Option<int> {
    let caps = discord_emoji_captures(s);
    if caps.len() == 0 {
        None
    } else {
        parse_unsigned(caps[0].2, u64::MAX as int)
    }
}

/// Reads the id of the first discord emoji in a text (see [`emoji_id_of`]).
pub fn emoji_id(s: &str) -> (r: Option<u64>)
    ensures
        match r {
            Some(v) => emoji_id_of(s@) == Some(v as int),
            None => emoji_id_of(s@) is None,
        },
{
    let caps = find_discord_emojis(s);
    if caps.len() == 0 {
        None
    } else {
        proof {
            assert(caps@.map_values(|c: (String, String, String)| (c.0@, c.1@, c.2@))[0] == (
                caps@[0].0@,
                caps@[0].1@,
                caps@[0].2@,
            ));
        }
        parse_u64(caps[0].2.as_str())
    }
}

/// An option of the class menu.
pub struct ClassOption {
    pub label: &'static str,
    /// the class's bit, as text
    pub value: String,
    pub description: &'static str,
    pub emoji_id: u64,
}

/// The options of the class menu, one per class in bit order, each with the id of
/// the class's emoji (`emojis` holds the emoji of each class, in bit order); `None`
/// when one of those emojis has no id.
pub fn create_class_select_components(emojis: &Vec<String>) -> (r: Option<Vec<ClassOption>>)
    requires
        emojis@.len() == 9,
    ensures
        r is None <==> exists|i: int| 0 <= i < 9 && emoji_id_of(#[trigger] emojis@[i]@) is None,
        r matches Some(v) ==> v@.len() == 9 && forall|i: int|
            0 <= i < 9 ==> {
                &&& (#[trigger] v@[i]).label == CLASS_NAMES[i]
                &&& v@[i].value@ == decimal(i as nat)
                &&& v@[i].description == CLASS_BLURBS[i]
                &&& emoji_id_of(emojis@[i]@) == Some(v@[i].emoji_id as int)
            },
{
    let mut v: Vec<ClassOption> = Vec::new();
    let mut i: usize = 0;
    while i < 9
        invariant
            i <= 9,
            emojis@.len() == 9,
            v@.len() == i,
            forall|j: int|
                0 <= j < i ==> {
                    &&& (#[trigger] v@[j]).label == CLASS_NAMES[j]
                    &&& v@[j].value@ == decimal(j as nat)
                    &&& v@[j].description == CLASS_BLURBS[j]
                    &&& emoji_id_of(emojis@[j]@) == Some(v@[j].emoji_id as int)
                },
        decreases 9 - i,
    {
        let id = match emoji_id(emojis[i].as_str()) {
            Some(id) => id,
            None => {
                return None;
            },
        };
        let mut value = String::new();
        push_decimal(&mut value, i as u64);
        proof {
            reveal_strlit("");
        }
        assert(value@ =~= decimal(i as nat));
        v.push(ClassOption { label: CLASS_NAMES[i], value, description: CLASS_BLURBS[i], emoji_id: id });
        i = i + 1;
    }
    assert forall|i: int| 0 <= i < 9 implies !(emoji_id_of(#[trigger] emojis@[i]@) is None) by {
        assert(emoji_id_of(emojis@[i]@) == Some(v@[i].emoji_id as int));
    }
    Some(v)
}

/// A member of a voice channel: their id, display name, and the class bits of their
/// profile when they have one.
pub struct VoiceMember {
    pub id: u64,
    pub name: String,
    pub classes: Option<u16>,
}

/// Bit `bit` of a profile's classes is set.
pub open spec fn plays(classes: u16, bit: u8) -> bool {
    (classes >> bit) & 1u16 == 1u16
}

/// The mentions of the members whose profile has class `bit`, in order.
pub open spec fn playing(ms: Seq<VoiceMember>, bit: u8) -> Seq<Seq<char>>
    decreases ms.len(),
{
    if ms.len() == 0 {
        seq![]
    } else {
        let rest = playing(ms.drop_last(), bit);
        match ms.last().classes {
            Some(c) => if plays(c, bit) {
                rest.push(at(ms.last().id))
            } else {
                rest
            },
            None => rest,
        }
    }
}

/// The member plays none of the classes a team needs (see [`TEAM_CLASS_BITS`]), or
/// has no profile.
pub open spec fn unmatched_member(m: VoiceMember) -> bool {
    match m.classes {
        Some(c) => !plays(c, 0) && !plays(c, 1) && !plays(c, 3) && !plays(c, 6),
        None => true,
    }
}

/// The mentions of the unmatched members, in order.
pub open spec fn unmatched(ms: Seq<VoiceMember>) -> Seq<Seq<char>>
    decreases ms.len(),
{
    if ms.len() == 0 {
        seq![]
    } else if unmatched_member(ms.last()) {
        unmatched(ms.drop_last()).push(at(ms.last().id))
    } else {
        unmatched(ms.drop_last())
    }
}

/// The names of the members without a profile, in order.
pub open spec fn without_profile(ms: Seq<VoiceMember>) -> Seq<Seq<char>>
    decreases ms.len(),
{
    if ms.len() == 0 {
        seq![]
    } else if ms.last().classes is None {
        without_profile(ms.drop_last()).push(ms.last().name@)
    } else {
        without_profile(ms.drop_last())
    }
}

/// The fields of the class availability embed, as (name, value, inline): one per
/// class a team needs, named by its emoji and listing its players; then the
/// unmatched members, and then the members without a profile, each when there are
/// any.
pub open spec fn availability_fields(ms: Seq<VoiceMember>, emojis: Seq<Seq<char>>) -> Seq<
    (Seq<char>, Seq<char>, bool),
> {
    let classes = Seq::new(
        4,
        |k: int| (emojis[TEAM_CLASS_BITS[k] as int], joined(playing(ms, TEAM_CLASS_BITS[k])), true),
    );
    let with_unmatched = if unmatched(ms).len() > 0 {
        classes.push(("None of the above"@, joined(unmatched(ms)), true))
    } else {
        classes
    };
    if without_profile(ms).len() > 0 {
        with_unmatched.push(("No /profile"@, joined(without_profile(ms)), true))
    } else {
        with_unmatched
    }
}

/// The fields of an embed, as (name, value, inline).
pub open spec fn field_views(fields: Seq<EmbedField>) -> Seq<(Seq<char>, Seq<char>, bool)> {
    fields.map_values(|f: EmbedField| (f.name@, f.value@, f.inline))
}

fn playing_mentions(members: &Vec<VoiceMember>, bit: u8) -> (v: Vec<String>)
    requires
        bit < 16,
    ensures
        views(v@) == playing(members@, bit),
{
    let mut v: Vec<String> = Vec::new();
    let mut i: usize = 0;
    while i < members.len()
        invariant
            i <= members@.len(),
            bit < 16,
            views(v@) == playing(members@.take(i as int), bit),
        decreases members@.len() - i,
    {
        assert(members@.take(i + 1).drop_last() =~= members@.take(i as int));
        assert(members@.take(i + 1).last() == members@[i as int]);
        match members[i].classes {
            Some(c) => {
                if get_bit(c, bit) {
                    let mut s = String::new();
                    push_mention(&mut s, members[i].id);
                    proof {
                        reveal_strlit("");
                    }
                    assert(s@ =~= at(members@[i as int].id));
                    v.push(s);
                    assert(views(v@) =~= playing(members@.take(i + 1), bit));
                } else {
                    assert(views(v@) =~= playing(members@.take(i + 1), bit));
                }
            },
            None => {
                assert(views(v@) =~= playing(members@.take(i + 1), bit));
            },
        }
        i = i + 1;
    }
    assert(members@.take(members@.len() as int) =~= members@);
    v
}

fn unmatched_mentions(members: &Vec<VoiceMember>) -> (v: Vec<String>)
    ensures
        views(v@) == unmatched(members@),
{
    let mut v: Vec<String> = Vec::new();
    let mut i: usize = 0;
    while i < members.len()
        invariant
            i <= members@.len(),
            views(v@) == unmatched(members@.take(i as int)),
        decreases members@.len() - i,
    {
        assert(members@.take(i + 1).drop_last() =~= members@.take(i as int));
        assert(members@.take(i + 1).last() == members@[i as int]);
        let none = match members[i].classes {
            Some(c) => !get_bit(c, 0) && !get_bit(c, 1) && !get_bit(c, 3) && !get_bit(c, 6),
            None => true,
        };
        if none {
            let mut s = String::new();
            push_mention(&mut s, members[i].id);
            proof {
                reveal_strlit("");
            }
            assert(s@ =~= at(members@[i as int].id));
            v.push(s);
        }
        assert(views(v@) =~= unmatched(members@.take(i + 1)));
        i = i + 1;
    }
    assert(members@.take(members@.len() as int) =~= members@);
    v
}

fn names_without_profile(members: &Vec<VoiceMember>) -> (v: Vec<String>)
    ensures
        views(v@) == without_profile(members@),
{
    let mut v: Vec<String> = Vec::new();
    let mut i: usize = 0;
    while i < members.len()
        invariant
            i <= members@.len(),
            views(v@) == without_profile(members@.take(i as int)),
        decreases members@.len() - i,
    {
        assert(members@.take(i + 1).drop_last() =~= members@.take(i as int));
        assert(members@.take(i + 1).last() == members@[i as int]);
        if members[i].classes.is_none() {
            v.push(members[i].name.clone());
        }
        assert(views(v@) =~= without_profile(members@.take(i + 1)));
        i = i + 1;
    }
    assert(members@.take(members@.len() as int) =~= members@);
    v
}

/// The embed listing who in a voice channel plays the classes a team needs.
pub struct ClassesEmbed {
    pub title: String,
    pub fields: Vec<EmbedField>,
}

/// Builds the class availability embed for the members of a voice channel, in the
/// order given; `emojis` holds the emoji of each class, in bit order (see
/// [`availability_fields`]).
pub fn generate_classes_embed(members: &Vec<VoiceMember>, emojis: &Vec<String>) -> (e: ClassesEmbed)
    requires
        emojis@.len() == 9,
    ensures
        e.title@ == "Class availability"@,
        field_views(e.fields@) == availability_fields(members@, views(emojis@)),
{
    let mut fields: Vec<EmbedField> = Vec::new();
    let ghost ev = views(emojis@);
    let mut k: usize = 0;
    while k < 4
        invariant
            k <= 4,
            emojis@.len() == 9,
            ev == views(emojis@),
            field_views(fields@) == Seq::new(
                k as nat,
                |j: int| (ev[TEAM_CLASS_BITS[j] as int], joined(playing(members@, TEAM_CLASS_BITS[j])), true),
            ),
        decreases 4 - k,
    {
        let bit = TEAM_CLASS_BITS[k];
        assert(bit == TEAM_CLASS_BITS[k as int]);
        let lines = playing_mentions(members, bit);
        let value = join_lines(&lines);
        let name = emojis[bit as usize].clone();
        assert(name@ == ev[bit as int]);
        assert(value@ == joined(playing(members@, bit)));
        let ghost before = field_views(fields@);
        let ghost item = (name@, value@, true);
        fields.push(EmbedField { name, value, inline: true });
        assert(field_views(fields@) =~= before.push(item));
        k = k + 1;
        assert(field_views(fields@) =~= Seq::new(
            k as nat,
            |j: int| (ev[TEAM_CLASS_BITS[j] as int], joined(playing(members@, TEAM_CLASS_BITS[j])), true),
        ));
    }
    let unmatched_lines = unmatched_mentions(members);
    if unmatched_lines.len() > 0 {
        let ghost before = field_views(fields@);
        fields.push(
            EmbedField {
                name: String::from_str("None of the above"),
                value: join_lines(&unmatched_lines),
                inline: true,
            },
        );
        assert(field_views(fields@) =~= before.push(("None of the above"@, joined(unmatched(members@)), true)));
    }
    let baiters = names_without_profile(members);
    if baiters.len() > 0 {
        let ghost before = field_views(fields@);
        fields.push(
            EmbedField { name: String::from_str("No /profile"), value: join_lines(&baiters), inline: true },
        );
        assert(field_views(fields@) =~= before.push(("No /profile"@, joined(without_profile(members@)), true)));
    }
    ClassesEmbed { title: String::from_str("Class availability"), fields }
}

} // verus!
