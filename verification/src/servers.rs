//! The game servers: seeding pings and their cooldown, player caps, server config
//! lines and the commands sent over rcon.
use vstd::prelude::*;

use crate::keyed::Keyed;
use crate::order::{lex_lt, sort_texts, sorted_by, text_lt, SortKey};
use crate::patterns::{find_maxplayers, maxplayers_capture};
use crate::text::{
    chars_of, decimal, parse_i32, parse_signed, push_char, push_decimal, push_signed_decimal,
    remove_backticks, signed_decimal, starts_with, without_backticks,
};

verus! {

/// Milliseconds between two seeding pings of a server: four hours.
pub const SEED_COOLDOWN_MS: i64 = 14_400_000;

/// When each server (by address) was last seeded, in milliseconds since the epoch.
pub struct SeedCooldown {
    last: Keyed<i64>,
}

/// The time at which a server last seeded at `last` may be seeded again.
pub open spec fn seed_allowed_at(last: i64) -> int {
    last + SEED_COOLDOWN_MS
}

impl SeedCooldown {
    /// No server seeded yet.
    pub fn new() -> (c: Self)
        ensures
            c.wf(),
            c@ == Map::<Seq<char>, i64>::empty(),
    {
        SeedCooldown { last: Keyed::new() }
    }

    /// The record is well formed.
    pub closed spec fn wf(&self) -> bool {
        self.last.wf()
    }

    /// Whether a server may be seeded at `now`: a server never seeded may, and
    /// otherwise four hours must have passed since its last ping. When it may not,
    /// gives the milliseconds left.
    pub fn can_seed(&self, server: &str, now: i64) -> (r: Result<(), i64>)
        requires
            self.wf(),
            self@.contains_key(server@) ==> self@[server@] <= i64::MAX - SEED_COOLDOWN_MS,
            self@.contains_key(server@) ==> seed_allowed_at(self@[server@]) - now <= i64::MAX,
        ensures
            !self@.contains_key(server@) ==> r is Ok,
            self@.contains_key(server@) ==> if seed_allowed_at(self@[server@]) < now {
                r is Ok
            } else {
                r == Err::<(), i64>((seed_allowed_at(self@[server@]) - now) as i64)
            },
    {
        match self.last.get(server) {
            None => Ok(()),
            Some(t) => {
                let allowed_at = *t + SEED_COOLDOWN_MS;
                if allowed_at < now {
                    Ok(())
                } else {
                    Err(allowed_at - now)
                }
            },
        }
    }

    /// Marks a server as seeded at `now`.
    pub fn reset_seed_cooldown(&mut self, server: &str, now: i64)
        requires
            old(self).wf(),
        ensures
            final(self).wf(),
            final(self)@ == old(self)@.insert(server@, now),
    {
        self.last.insert(server.to_owned(), now);
    }
}

impl View for SeedCooldown {
    type V = Map<Seq<char>, i64>;

    closed spec fn view(&self) -> Map<Seq<char>, i64> {
        self.last@
    }
}

/// Why a seeding ping is not sent.
#[derive(Debug, Clone, Copy, PartialEq, Eq, Structural)]
pub enum SeedRefusal {
    /// The server is not to be seeded.
    NotSeedable,
    /// Fewer than two players are on.
    TooFew,
    /// Sixteen players or more are on.
    TooMany,
}

impl SeedRefusal {
    /// The answer to the user.
    pub fn message(&self) -> (s: &'static str)
        ensures
            s@ == match self {
                SeedRefusal::NotSeedable => "This server is not seedable."@,
                SeedRefusal::TooFew => "Server must have >2 players to ping."@,
                SeedRefusal::TooMany => "Server must have <16 players to ping."@,
            },
    {
        match self {
            SeedRefusal::NotSeedable => "This server is not seedable.",
            SeedRefusal::TooFew => "Server must have >2 players to ping.",
            SeedRefusal::TooMany => "Server must have <16 players to ping.",
        }
    }
}

/// Whether a server may be pinged for seeding: it must allow it and have from two
/// to fifteen players on.
pub fn check_seedable(allow_seed: bool, player_count: usize) -> (r: Result<(), SeedRefusal>)
    ensures
        r == if !allow_seed {
            Err(SeedRefusal::NotSeedable)
        } else if player_count < 2 {
            Err(SeedRefusal::TooFew)
        } else if player_count >= 16 {
            Err(SeedRefusal::TooMany)
        } else {
            Ok(())
        },
{
    if !allow_seed {
        Err(SeedRefusal::NotSeedable)
    } else if player_count < 2 {
        Err(SeedRefusal::TooFew)
    } else if player_count >= 16 {
        Err(SeedRefusal::TooMany)
    } else {
        Ok(())
    }
}

/// The answer when a server was seeded too recently: when it may be seeded again
/// (`allowed_at`, in seconds since the epoch) as a discord timestamp.
pub fn seed_too_soon_text(allowed_at: i64) -> (s: String)
    ensures
        s@ == "Server was seeded too recently. Try again <t:"@ + signed_decimal(allowed_at as int)
            + ":R>"@,
{
    let mut s = String::from_str("Server was seeded too recently. Try again <t:");
    push_signed_decimal(&mut s, allowed_at);
    s.append(":R>");
    s
}

/// The optional message of a ping: without backticks, followed by a line break.
pub open spec fn ping_note(message: Option<Seq<char>>) -> Seq<char> {
    match message {
        Some(m) => without_backticks(m + "\n"@),
        None => ""@,
    }
}

/// The view of an optional text.
pub open spec fn opt_view(m: Option<&str>) -> Option<Seq<char>> {
    match m {
        Some(m) => Some(m@),
        None => None,
    }
}

fn push_note(s: &mut String, message: Option<&str>)
    ensures
        final(s)@ == old(s)@ + ping_note(opt_view(message)),
{
    proof {
        reveal_strlit("");
    }
    match message {
        Some(m) => {
            let mut t = m.to_owned();
            t.append("\n");
            let clean = remove_backticks(t.as_str());
            s.append(clean.as_str());
        },
        None => {
            assert(old(s)@ + ""@ =~= old(s)@);
        },
    }
}

/// The seeding ping: the optional message, the seeder role, the server's emoji, who
/// asked, and the server's status.
pub fn seed_ping_text(message: Option<&str>, role: u64, server_emoji: &str, author: u64, status: &str) -> (s: String)
    ensures
        s@ == ping_note(opt_view(message)) + "<@&"@ + decimal(role as nat) + "> come fwag on "@
            + server_emoji@ + " :3\nraowquested by: <@"@ + decimal(author as nat) + ">\n"@ + status@,
{
    let mut s = String::new();
    push_note(&mut s, message);
    s.append("<@&");
    push_decimal(&mut s, role);
    s.append("> come fwag on ");
    s.append(server_emoji);
    s.append(" :3\nraowquested by: <@");
    push_decimal(&mut s, author);
    s.append(">\n");
    s.append(status);
    s
}

/// The pug ping: the optional message, the scrim role, and who asked.
pub fn pug_ping_text(message: Option<&str>, role: u64, author: u64) -> (s: String)
    ensures
        s@ == ping_note(opt_view(message)) + "<@&"@ + decimal(role as nat) + ">\nraowquested by: <@"@
            + decimal(author as nat) + ">"@,
{
    let mut s = String::new();
    push_note(&mut s, message);
    s.append("<@&");
    push_decimal(&mut s, role);
    s.append(">\nraowquested by: <@");
    push_decimal(&mut s, author);
    s.append(">");
    s
}

/// The fewest players a server can be capped to.
pub const MIN_PLAYER_CAP: i32 = 24;

/// The most players a server takes, read from its answer to `maxplayers` (25 when
/// it cannot be read), less one.
pub open spec fn max_visible(answer: Seq<char>) -> int {
    match maxplayers_capture(answer) {
        Some(d) => match parse_signed(d, i32::MIN as int, i32::MAX as int) {
            Some(v) => v - 1,
            None => 24,
        },
        None => 24,
    }
}

/// The player cap asked for, kept from 24 up to the server's maximum (the maximum
/// wins when it is lower), and the reserved slots left above it.
pub open spec fn player_cap(count: int, max: int) -> (int, int) {
    let low = if count < MIN_PLAYER_CAP { MIN_PLAYER_CAP as int } else { count };
    let visible = if low > max { max } else { low };
    let reserved = if max - visible - 1 < 0 { 0 } else { max - visible - 1 };
    (visible, reserved)
}

/// The settings for a player cap of `count` on a server that answered `maxplayers`
/// with `answer`: the visible player count and the reserved slots.
pub fn player_cap_settings(count: i32, answer: &str) -> (r: (i32, i32))
    ensures
        r.0 == player_cap(count as int, max_visible(answer@)).0,
        r.1 == player_cap(count as int, max_visible(answer@)).1,
{
    let max: i32 = match find_maxplayers(answer) {
        Some(d) => match parse_i32(d.as_str()) {
            Some(v) => {
                assert(parse_signed(d@, i32::MIN as int, i32::MAX as int) == crate::text::parse_unsigned(
                    d@,
                    i32::MAX as int,
                ));
                proof {
                    crate::text::lemma_parse_unsigned_nonneg(d@, i32::MAX as int);
                }
                v - 1
            },
            None => 24,
        },
        None => 24,
    };
    let low = if count < MIN_PLAYER_CAP {
        MIN_PLAYER_CAP
    } else {
        count
    };
    let visible = if low > max {
        max
    } else {
        low
    };
    let diff: i64 = max as i64 - visible as i64 - 1;
    let reserved: i32 = if diff < 0 {
        0
    } else {
        diff as i32
    };
    (visible, reserved)
}

/// The two config lines of a player cap, and the rcon command that applies both.
pub fn player_cap_commands(visible: i32, reserved: i32) -> (r: (String, String, String))
    ensures
        r.0@ == "sm_reserved_slots "@ + signed_decimal(reserved as int),
        r.1@ == "sv_visiblemaxplayers "@ + signed_decimal(visible as int),
        r.2@ == r.0@ + ";"@ + r.1@,
{
    let mut rs = String::from_str("sm_reserved_slots ");
    push_signed_decimal(&mut rs, reserved as i64);
    let mut vmp = String::from_str("sv_visiblemaxplayers ");
    push_signed_decimal(&mut vmp, visible as i64);
    let mut cmd = rs.clone();
    cmd.append(";");
    cmd.append(vmp.as_str());
    (rs, vmp, cmd)
}

/// The rcon command that limits snipers on both teams.
pub fn snipers_command(limit: i8) -> (s: String)
    ensures
        s@ == "sm_classrestrict_blu_snipers "@ + signed_decimal(limit as int)
            + "; sm_classrestrict_red_snipers "@ + signed_decimal(limit as int),
{
    let mut s = String::from_str("sm_classrestrict_blu_snipers ");
    push_signed_decimal(&mut s, limit as i64);
    s.append("; sm_classrestrict_red_snipers ");
    push_signed_decimal(&mut s, limit as i64);
    s
}

/// `1` for true, `0` for false.
pub open spec fn flag(b: bool) -> Seq<char> {
    if b {
        "1"@
    } else {
        "0"@
    }
}

/// The rcon command that turns bunny hopping on or off, with or without autohop.
pub fn bhop_command(enabled: bool, autohop: bool) -> (s: String)
    ensures
        s@ == "cm_enabled "@ + flag(enabled) + "; cm_allow_autohop "@ + flag(autohop),
{
    let mut s = String::from_str("cm_enabled ");
    s.append(if enabled { "1" } else { "0" });
    s.append("; cm_allow_autohop ");
    s.append(if autohop { "1" } else { "0" });
    s
}

/// The answer to a bunny hop change.
pub fn bhop_reply(server_emoji: &str, enabled: bool, autohop: bool) -> (s: String)
    ensures
        enabled ==> s@ == server_emoji@ + " `Enabled BHOP "@ + (if autohop {
            "with"@
        } else {
            "without"@
        }) + " autohop`"@,
        !enabled ==> s@ == server_emoji@ + " `Disabled BHOP`"@,
{
    let mut s = server_emoji.to_owned();
    if enabled {
        s.append(" `Enabled BHOP ");
        s.append(if autohop { "with" } else { "without" });
        s.append(" autohop`");
    } else {
        s.append(" `Disabled BHOP`");
    }
    s
}

/// The rcon command that asks for, or sets, instant respawn (which turns the low
/// population mode off).
pub fn respawn_command(instant: Option<bool>) -> (s: String)
    ensures
        instant is None ==> s@ == "mp_disable_respawn_times"@,
        instant matches Some(b) ==> s@ == "mp_disable_respawn_times "@ + flag(b) + "; sm_lowpop_enabled "@
            + flag(!b),
{
    match instant {
        None => String::from_str("mp_disable_respawn_times"),
        Some(b) => {
            let mut s = String::from_str("mp_disable_respawn_times ");
            s.append(if b { "1" } else { "0" });
            s.append("; sm_lowpop_enabled ");
            s.append(if b { "0" } else { "1" });
            s
        },
    }
}

/// How long a member is timed out the `count`-th time: two to the power of the
/// count, in seconds, at most 25 days.
pub open spec fn timeout_seconds(count: nat) -> int {
    let p = vstd::arithmetic::power2::pow2(count);
    if p < 2160000 {
        p as int
    } else {
        2160000
    }
}

/// The seconds of the `count`-th time-out (see [`timeout_seconds`]).
pub fn dihh_timeout(count: u32) -> (s: u64)
    requires
        count < 64,
    ensures
        s == timeout_seconds(count as nat),
{
    let mut p: u64 = 1;
    let mut i: u32 = 0;
    proof {
        vstd::arithmetic::power2::lemma2_to64();
    }
    while i < count
        invariant
            i <= count < 64,
            p == vstd::arithmetic::power2::pow2(i as nat),
        decreases count - i,
    {
        proof {
            vstd::arithmetic::power2::lemma_pow2_unfold((i + 1) as nat);
            vstd::arithmetic::power2::lemma_pow2_strictly_increases((i + 1) as nat, 64);
            vstd::arithmetic::power2::lemma2_to64();
        }
        p = p * 2;
        i = i + 1;
    }
    if p < 2160000 {
        p
    } else {
        2160000
    }
}

/// The two steam ids of a domination, in order, and whether the dominator comes
/// first (`-1`) or second (`1`); a player dominating themselves counts as first.
pub open spec fn domination_pair(dominator: Seq<char>, victim: Seq<char>) -> (Seq<char>, Seq<char>, int) {
    if lex_lt(dominator, victim) {
        (dominator, victim, -1)
    } else if lex_lt(victim, dominator) {
        (victim, dominator, 1)
    } else {
        (victim, victim, -1)
    }
}

/// The ordered pair of steam ids of a domination (see [`domination_pair`]).
pub fn order_domination(dominator: &str, victim: &str) -> (r: (String, String, i32))
    ensures
        (r.0@, r.1@, r.2 as int) == domination_pair(dominator@, victim@),
{
    if text_lt(dominator, victim) {
        (dominator.to_owned(), victim.to_owned(), -1)
    } else if text_lt(victim, dominator) {
        (victim.to_owned(), dominator.to_owned(), 1)
    } else {
        (victim.to_owned(), victim.to_owned(), -1)
    }
}

/// The domination score after one more domination: the stored score moves by the
/// sign, and the score shown is seen from the dominator's side.
pub fn next_domination_score(existing: Option<i32>, sign: i32) -> (r: (i32, i32))
    requires
        sign == 1 || sign == -1,
        existing matches Some(s) ==> i32::MIN < s + sign < i32::MAX,
    ensures
        r.0 == match existing {
            Some(s) => s + sign,
            None => sign as int,
        },
        r.1 == r.0 * sign,
{
    let stored = match existing {
        Some(s) => s + sign,
        None => sign,
    };
    let shown = if sign == 1 {
        stored
    } else {
        -stored
    };
    (stored, shown)
}

/// What a server answered to an rcon command, line by line in the reply: its emoji
/// followed by a check mark (no output), the output in a code block, or the error.
pub open spec fn rcon_line(emoji: Seq<char>, result: Result<Seq<char>, Seq<char>>) -> Seq<char> {
    emoji + match result {
        Ok(o) => if o.len() == 0 {
            ":white_check_mark:\n"@
        } else {
            "\n```"@ + o + "```"@
        },
        Err(e) => e,
    }
}

/// The reply to an rcon command run on several servers: one part per server (see
/// [`rcon_line`]), sorted, joined with line breaks.
pub fn rcon_reply(results: &Vec<(String, Result<String, String>)>) -> (s: Vec<String>)
    ensures
        s@.map_values(|x: String| x@) == sorted_by(
            results@.map_values(|r: (String, Result<String, String>)| rcon_line(
                r.0@,
                match r.1 {
                    Ok(o) => Ok(o@),
                    Err(e) => Err(e@),
                },
            )),
            SortKey::Whole,
        ),
{
    let ghost rv = results@.map_values(|r: (String, Result<String, String>)| rcon_line(
        r.0@,
        match r.1 {
            Ok(o) => Ok(o@),
            Err(e) => Err(e@),
        },
    ));
    let mut parts: Vec<String> = Vec::new();
    let mut i: usize = 0;
    while i < results.len()
        invariant
            i <= results@.len(),
            rv == results@.map_values(|r: (String, Result<String, String>)| rcon_line(
                r.0@,
                match r.1 {
                    Ok(o) => Ok(o@),
                    Err(e) => Err(e@),
                },
            )),
            parts@.len() == i,
            forall|j: int| 0 <= j < i ==> (#[trigger] parts@[j])@ == rv[j],
        decreases results@.len() - i,
    {
        let mut line = results[i].0.clone();
        match &results[i].1 {
            Ok(o) => {
                if o.unicode_len() == 0 {
                    line.append(":white_check_mark:\n");
                } else {
                    line.append("\n```");
                    line.append(o.as_str());
                    line.append("```");
                }
            },
            Err(e) => {
                line.append(e.as_str());
            },
        }
        parts.push(line);
        i = i + 1;
    }
    assert(parts@.map_values(|x: String| x@) =~= rv);
    sort_texts(&parts, SortKey::Whole)
}

/// Whether a character has the unicode White_Space property (`char::is_whitespace`).
pub open spec fn white_space(c: char) -> bool {
    let v = c as int;
    (0x9 <= v <= 0xD) || v == 0x20 || v == 0x85 || v == 0xA0 || v == 0x1680 || (0x2000 <= v <= 0x200A)
        || v == 0x2028 || v == 0x2029 || v == 0x202F || v == 0x205F || v == 0x3000
}

/// `s` without leading white space.
pub open spec fn trim_start(s: Seq<char>) -> Seq<char>
    decreases s.len(),
{
    if s.len() > 0 && white_space(s[0]) {
        trim_start(s.skip(1))
    } else {
        s
    }
}

/// `s` without trailing white space.
pub open spec fn trim_end(s: Seq<char>) -> Seq<char>
    decreases s.len(),
{
    if s.len() > 0 && white_space(s.last()) {
        trim_end(s.drop_last())
    } else {
        s
    }
}

/// `s` without leading or trailing white space (`str::trim`).
pub open spec fn trimmed(s: Seq<char>) -> Seq<char> {
    trim_end(trim_start(s))
}

fn is_white_space(c: char) -> (b: bool)
    ensures
        b == white_space(c),
{
    let v = c as u32;
    (0x9 <= v && v <= 0xD) || v == 0x20 || v == 0x85 || v == 0xA0 || v == 0x1680 || (0x2000 <= v
        && v <= 0x200A) || v == 0x2028 || v == 0x2029 || v == 0x202F || v == 0x205F || v == 0x3000
}

/// Removes leading and trailing white space (see [`trimmed`]).
pub fn trim_text(s: &str) -> (r: String)
    ensures
        r@ == trimmed(s@),
{
    let cs = chars_of(s);
    let mut i: usize = 0;
    assert(s@.skip(0) =~= s@);
    while i < cs.len() && is_white_space(cs[i])
        invariant
            i <= cs@.len(),
            cs@ == s@,
            trim_start(s@) == trim_start(s@.skip(i as int)),
        decreases cs@.len() - i,
    {
        assert(s@.skip(i as int)[0] == cs@[i as int]);
        assert(s@.skip(i as int).skip(1) =~= s@.skip(i + 1));
        i = i + 1;
    }
    let ghost front = s@.skip(i as int);
    assert(trim_start(front) == front);
    let mut j: usize = cs.len();
    assert(front.take(j - i) =~= front);
    while j > i && is_white_space(cs[j - 1])
        invariant
            i <= j <= cs@.len(),
            cs@ == s@,
            front == s@.skip(i as int),
            trim_end(front) == trim_end(front.take(j - i)),
        decreases j,
    {
        assert(front.take(j - i).last() == cs@[j - 1]);
        assert(front.take(j - i).drop_last() =~= front.take(j - 1 - i));
        j = j - 1;
    }
    assert(trim_end(front.take(j - i)) == front.take(j - i));
    let mut out = String::new();
    let mut k: usize = i;
    while k < j
        invariant
            i <= k <= j <= cs@.len(),
            cs@ == s@,
            out@ == s@.subrange(i as int, k as int),
        decreases j - k,
    {
        push_char(&mut out, cs[k]);
        k = k + 1;
        assert(out@ =~= s@.subrange(i as int, k as int));
    }
    assert(front.take(j - i) =~= s@.subrange(i as int, j as int));
    out
}

/// The lines of a text: the pieces between line breaks (`str::split('\n')`).
pub open spec fn split_lines(s: Seq<char>) -> Seq<Seq<char>>
    decreases s.len(),
{
    if s.len() == 0 {
        seq![seq![]]
    } else {
        let p = split_lines(s.drop_last());
        if s.last() == '\n' {
            p.push(seq![])
        } else {
            p.update(p.len() - 1, p.last().push(s.last()))
        }
    }
}

proof fn lemma_split_lines_nonempty(s: Seq<char>)
    ensures
        split_lines(s).len() >= 1,
    decreases s.len(),
{
    if s.len() > 0 {
        lemma_split_lines_nonempty(s.drop_last());
    }
}

/// The lines of a config file: split at line breaks, each trimmed.
pub open spec fn config_lines(text: Seq<char>) -> Seq<Seq<char>> {
    split_lines(text).map_values(|l: Seq<char>| trimmed(l))
}

/// Splits a config file into trimmed lines (see [`config_lines`]).
pub fn file_lines(text: &str) -> (v: Vec<String>)
    ensures
        v@.map_values(|s: String| s@) == config_lines(text@),
{
    let cs = chars_of(text);
    let mut pieces: Vec<Vec<char>> = Vec::new();
    let mut cur: Vec<char> = Vec::new();
    let mut i: usize = 0;
    assert(text@.take(0) =~= Seq::<char>::empty());
    while i < cs.len()
        invariant
            i <= cs@.len(),
            cs@ == text@,
            pieces@.map_values(|p: Vec<char>| p@).push(cur@) == split_lines(text@.take(i as int)),
        decreases cs@.len() - i,
    {
        let ghost before = pieces@.map_values(|p: Vec<char>| p@).push(cur@);
        assert(text@.take(i + 1).drop_last() =~= text@.take(i as int));
        assert(text@.take(i + 1).last() == cs@[i as int]);
        proof {
            lemma_split_lines_nonempty(text@.take(i as int));
        }
        if cs[i] == '\n' {
            let done = cur;
            pieces.push(done);
            cur = Vec::new();
            assert(pieces@.map_values(|p: Vec<char>| p@).push(cur@) =~= before.push(seq![]));
        } else {
            cur.push(cs[i]);
            assert(pieces@.map_values(|p: Vec<char>| p@).push(cur@) =~= before.update(
                before.len() - 1,
                before.last().push(cs@[i as int]),
            ));
        }
        i = i + 1;
    }
    assert(text@.take(cs@.len() as int) =~= text@);
    pieces.push(cur);
    let ghost all = pieces@.map_values(|p: Vec<char>| p@);
    let mut out: Vec<String> = Vec::new();
    let mut k: usize = 0;
    while k < pieces.len()
        invariant
            k <= pieces@.len(),
            all == pieces@.map_values(|p: Vec<char>| p@),
            all == split_lines(text@),
            out@.len() == k,
            forall|j: int| 0 <= j < k ==> (#[trigger] out@[j])@ == trimmed(all[j]),
        decreases pieces@.len() - k,
    {
        let line = crate::text::string_of(&pieces[k]);
        assert(line@ == all[k as int]);
        let t = trim_text(line.as_str());
        out.push(t);
        k = k + 1;
    }
    assert(out@.map_values(|s: String| s@) =~= config_lines(text@));
    out
}

/// The config after setting a line: the first line that starts with `key` becomes
/// `line`; when none does, `line` is added at the end.
pub open spec fn with_config_line(lines: Seq<Seq<char>>, key: Seq<char>, line: Seq<char>) -> Seq<Seq<char>> {
    if exists|i: int| 0 <= i < lines.len() && (#[trigger] lines[i]).len() >= key.len() && lines[i].take(
        key.len() as int,
    ) == key {
        let i = choose|i: int|
            0 <= i < lines.len() && (#[trigger] lines[i]).len() >= key.len() && lines[i].take(key.len() as int)
                == key && forall|j: int|
                0 <= j < i ==> !((#[trigger] lines[j]).len() >= key.len() && lines[j].take(key.len() as int)
                    == key);
        lines.update(i, line)
    } else {
        lines.push(line)
    }
}

/// Sets a config line (see [`with_config_line`]); true when it was added.
pub fn add_or_edit_line(lines: &mut Vec<String>, key: &str, line: &str) -> (added: bool)
    ensures
        final(lines)@.map_values(|s: String| s@) == with_config_line(
            old(lines)@.map_values(|s: String| s@),
            key@,
            line@,
        ),
        added == !exists|i: int|
            0 <= i < old(lines)@.len() && (#[trigger] old(lines)@[i])@.len() >= key@.len()
                && old(lines)@[i]@.take(key@.len() as int) == key@,
{
    let ghost lv = old(lines)@.map_values(|s: String| s@);
    let mut i: usize = 0;
    while i < lines.len()
        invariant
            i <= lines@.len(),
            lines@ == old(lines)@,
            lv == old(lines)@.map_values(|s: String| s@),
            forall|j: int|
                0 <= j < i ==> !((#[trigger] lv[j]).len() >= key@.len() && lv[j].take(key@.len() as int)
                    == key@),
        decreases lines@.len() - i,
    {
        assert(lv[i as int] == lines@[i as int]@);
        if starts_with(lines[i].as_str(), key) {
            proof {
                let c = choose|c: int|
                    0 <= c < lv.len() && (#[trigger] lv[c]).len() >= key@.len() && lv[c].take(key@.len() as int)
                        == key@ && forall|j: int|
                        0 <= j < c ==> !((#[trigger] lv[j]).len() >= key@.len() && lv[j].take(
                            key@.len() as int,
                        ) == key@);
                assert(0 <= i < lv.len() && lv[i as int].len() >= key@.len() && lv[i as int].take(
                    key@.len() as int,
                ) == key@);
                if c < i {
                    assert(!(lv[c].len() >= key@.len() && lv[c].take(key@.len() as int) == key@));
                } else if c > i {
                    assert(!(lv[i as int].len() >= key@.len() && lv[i as int].take(key@.len() as int) == key@));
                }
            }
            let mut all = Vec::new();
            std::mem::swap(&mut all, lines);
            all.set(i, line.to_owned());
            *lines = all;
            assert(lines@.map_values(|s: String| s@) =~= lv.update(i as int, line@));
            return false;
        }
        i = i + 1;
    }
    proof {
        assert forall|j: int| 0 <= j < old(lines)@.len() implies !((#[trigger] old(lines)@[j])@.len()
            >= key@.len() && old(lines)@[j]@.take(key@.len() as int) == key@) by {
            assert(lv[j] == old(lines)@[j]@);
        }
    }
    lines.push(line.to_owned());
    assert(lines@.map_values(|s: String| s@) =~= lv.push(line@));
    true
}

} // verus!
