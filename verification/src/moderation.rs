//! Moderation commands sent to the game servers over rcon.
use vstd::prelude::*;

use crate::patterns::{caps_view, find_steam3, find_steam_id, steam3_in, steam_id_captures};
use crate::text::{decimal, push_decimal, starts_with};

verus! {

/// The text of an optional reason, or the default.
pub open spec fn reason_or(reason: Option<Seq<char>>, default: Seq<char>) -> Seq<char> {
    match reason {
        Some(r) => r,
        None => default,
    }
}

/// The view of an optional text.
pub open spec fn opt_text(r: Option<&str>) -> Option<Seq<char>> {
    match r {
        Some(r) => Some(r@),
        None => None,
    }
}

fn push_reason(s: &mut String, reason: Option<&str>, default: &str)
    ensures
        final(s)@ == old(s)@ + reason_or(opt_text(reason), default@),
{
    match reason {
        Some(r) => s.append(r),
        None => s.append(default),
    }
}

/// `verb "user"`, as the sourcemod commands take a player.
pub open spec fn quoted(verb: Seq<char>, user: Seq<char>) -> Seq<char> {
    verb + " \""@ + user + "\""@
}

fn start_quoted(verb: &str, user: &str) -> (s: String)
    ensures
        s@ == quoted(verb@, user@),
{
    let mut s = verb.to_owned();
    s.append(" \"");
    s.append(user);
    s.append("\"");
    s
}

/// The ban command: the player, the minutes and the reason ("undesirable" by default).
pub fn ban_command(username: &str, minutes: u32, reason: Option<&str>) -> (s: String)
    ensures
        s@ == quoted("sm_ban"@, username@) + " "@ + decimal(minutes as nat) + " "@ + reason_or(
            opt_text(reason),
            "undesirable"@,
        ),
{
    let mut s = start_quoted("sm_ban", username);
    s.append(" ");
    push_decimal(&mut s, minutes as u64);
    s.append(" ");
    push_reason(&mut s, reason, "undesirable");
    s
}

/// The raw ban command, for when sourcemod is down.
pub fn ban_raw_command(user: &str, minutes: u32) -> (s: String)
    ensures
        s@ == "banid \""@ + decimal(minutes as nat) + "\" "@ + user@ + " kick"@,
{
    let mut s = String::from_str("banid \"");
    push_decimal(&mut s, minutes as u64);
    s.append("\" ");
    s.append(user);
    s.append(" kick");
    s
}

/// The raw kick command, for when sourcemod is down ("1984" by default).
pub fn kick_raw_command(user: &str, reason: Option<&str>) -> (s: String)
    ensures
        s@ == quoted("kickid"@, user@) + " "@ + reason_or(opt_text(reason), "1984"@),
{
    let mut s = start_quoted("kickid", user);
    s.append(" ");
    push_reason(&mut s, reason, "1984");
    s
}

/// The kick command ("1984" by default).
pub fn kick_command(username: &str, reason: Option<&str>) -> (s: String)
    ensures
        s@ == quoted("sm_kick"@, username@) + " "@ + reason_or(opt_text(reason), "1984"@),
{
    let mut s = start_quoted("sm_kick", username);
    s.append(" ");
    push_reason(&mut s, reason, "1984");
    s
}

/// The voice mute command (0 minutes and "1984" by default).
pub fn mute_command(username: &str, minutes: Option<u32>, reason: Option<&str>) -> (s: String)
    ensures
        s@ == quoted("sm_mute"@, username@) + " "@ + decimal(
            match minutes {
                Some(m) => m as nat,
                None => 0,
            },
        ) + " "@ + reason_or(opt_text(reason), "1984"@),
{
    let mut s = start_quoted("sm_mute", username);
    s.append(" ");
    push_decimal(
        &mut s,
        match minutes {
            Some(m) => m as u64,
            None => 0,
        },
    );
    s.append(" ");
    push_reason(&mut s, reason, "1984");
    s
}

/// The unmute command ("vibin" by default).
pub fn unmute_command(username: &str, reason: Option<&str>) -> (s: String)
    ensures
        s@ == quoted("sm_unmute"@, username@) + " "@ + reason_or(opt_text(reason), "vibin"@),
{
    let mut s = start_quoted("sm_unmute", username);
    s.append(" ");
    push_reason(&mut s, reason, "vibin");
    s
}

/// The text chat gag command (0 minutes and "1984" by default).
pub fn gag_command(username: &str, minutes: Option<u32>, reason: Option<&str>) -> (s: String)
    ensures
        s@ == quoted("sm_gag"@, username@) + " "@ + decimal(
            match minutes {
                Some(m) => m as nat,
                None => 0,
            },
        ) + " "@ + reason_or(opt_text(reason), "1984"@),
{
    let mut s = start_quoted("sm_gag", username);
    s.append(" ");
    push_decimal(
        &mut s,
        match minutes {
            Some(m) => m as u64,
            None => 0,
        },
    );
    s.append(" ");
    push_reason(&mut s, reason, "1984");
    s
}

/// The ungag command (no reason by default).
pub fn ungag_command(username: &str, reason: Option<&str>) -> (s: String)
    ensures
        s@ == quoted("sm_ungag"@, username@) + " "@ + reason_or(opt_text(reason), ""@),
{
    let mut s = start_quoted("sm_ungag", username);
    s.append(" ");
    push_reason(&mut s, reason, "");
    s
}

/// The answer to a steam id that is in no known format.
pub const INVALID_STEAM_ID: &'static str =
    "Invalid steam id format. Examples: STEAM_0:0:150459717, [U:1:125818436], U:1:125818436";

/// The ban of a steam id, given what the steam id regex captured (see
/// [`steam_id_captures`]): a legacy id is used as written, a steam3 id is put in
/// brackets, and anything else is refused.
pub open spec fn ban_id_result(
    caps: Option<(Option<Seq<char>>, Option<Seq<char>>)>,
    minutes: u32,
    reason: Option<Seq<char>>,
) -> Result<Seq<char>, &'static str> {
    let tail = reason_or(reason, "undesirable"@);
    match caps {
        Some((Some(id), _)) => Ok("sm_addban "@ + decimal(minutes as nat) + " "@ + id + " "@ + tail),
        Some((None, Some(id3))) => Ok(
            "sm_addban "@ + decimal(minutes as nat) + " "@ + "["@ + id3 + "]"@ + " "@ + tail,
        ),
        _ => Err(INVALID_STEAM_ID),
    }
}

/// The view of a command or a refusal.
pub open spec fn command_view(r: Result<String, &'static str>) -> Result<Seq<char>, &'static str> {
    match r {
        Ok(s) => Ok(s@),
        Err(e) => Err(e),
    }
}

/// The ban of a steam id from what the steam id regex captured (see
/// [`ban_id_result`]).
pub fn ban_id_command_of(
    caps: Option<(Option<String>, Option<String>)>,
    minutes: u32,
    reason: Option<&str>,
) -> (r: Result<String, &'static str>)
    ensures
        command_view(r) == ban_id_result(caps_view(caps), minutes, opt_text(reason)),
{
    let ghost cv = caps_view(caps);
    let id = match caps {
        Some((Some(id), _)) => id,
        Some((None, Some(id3))) => {
            let mut s = String::from_str("[");
            s.append(id3.as_str());
            s.append("]");
            s
        },
        _ => {
            return Err(INVALID_STEAM_ID);
        },
    };
    let mut s = String::from_str("sm_addban ");
    push_decimal(&mut s, minutes as u64);
    s.append(" ");
    s.append(id.as_str());
    s.append(" ");
    push_reason(&mut s, reason, "undesirable");
    proof {
        let tail = reason_or(opt_text(reason), "undesirable"@);
        assert(s@ =~= "sm_addban "@ + decimal(minutes as nat) + " "@ + id@ + " "@ + tail);
        if let Some((None, Some(id3))) = cv {
            assert(id@ =~= "["@ + id3 + "]"@);
            assert(s@ =~= "sm_addban "@ + decimal(minutes as nat) + " "@ + "["@ + id3 + "]"@ + " "@
                + tail);
        }
    }
    Ok(s)
}

/// The ban of a steam id written in any of its usual forms (`STEAM_0:0:150459717`,
/// `[U:1:125818436]`, `U:1:125818436`): the id is read with the steam id regex,
/// then see [`ban_id_command_of`].
pub fn ban_id_command(id: &str, minutes: u32, reason: Option<&str>) -> (r: Result<String, &'static str>)
    ensures
        command_view(r) == ban_id_result(steam_id_captures(id@), minutes, opt_text(reason)),
{
    let caps = find_steam_id(id);
    ban_id_command_of(caps, minutes, reason)
}

/// The unban command ("chill" by default).
pub fn unban_command(steamid: &str, reason: Option<&str>) -> (s: String)
    ensures
        s@ == "sm_unban "@ + steamid@ + " "@ + reason_or(opt_text(reason), "chill"@),
{
    let mut s = String::from_str("sm_unban ");
    s.append(steamid);
    s.append(" ");
    push_reason(&mut s, reason, "chill");
    s
}

/// The answer to an unban.
pub fn unban_reply(steamid64: &str) -> (s: String)
    ensures
        s@ == "Unbanned https://steamcommunity.com/profiles/"@ + steamid64@,
{
    let mut s = String::from_str("Unbanned https://steamcommunity.com/profiles/");
    s.append(steamid64);
    s
}

/// A relayed join or leave line: it starts with `+`, or with `\-`.
pub open spec fn is_join_leave(content: Seq<char>) -> bool {
    (content.len() >= 1 && content[0] == '+') || (content.len() >= 2 && content.take(2) == "\\-"@)
}

/// The steam id to ban when a hammer reaction lands on a message: the message must be
/// a join or leave line in a relay channel, the reaction a hammer, and the reacting
/// user an admin; the id is the first steam id in the message.
pub fn hammer_ban_target(content: &str, in_relay: bool, is_hammer: bool, is_admin: bool) -> (r: Option<String>)
    ensures
        match r {
            Some(id) => in_relay && is_hammer && is_join_leave(content@) && is_admin && steam3_in(content@)
                == Some(id@),
            None => !(in_relay && is_hammer && is_join_leave(content@) && is_admin && steam3_in(content@)
                is Some),
        },
{
    proof {
        reveal_strlit("+");
        reveal_strlit("\\-");
    }
    let uid = find_steam3(content);
    let join_leave = starts_with(content, "+") || starts_with(content, "\\-");
    assert(join_leave == is_join_leave(content@)) by {
        assert("+"@ =~= seq!['+']);
        assert("+"@.len() == 1);
        assert("\\-"@.len() == 2);
        if content@.len() >= 1 {
            assert(content@.take(1)[0] == content@[0]);
            if content@[0] == '+' {
                assert(content@.take(1) =~= "+"@);
            }
        }
    }
    if in_relay && is_hammer && join_leave && is_admin {
        uid
    } else {
        None
    }
}

/// Toggles the pro role of a member who has it (`has_role`) or not: whether the role
/// is to be added, and the answer naming the role and the member.
pub fn pro_role_toggle(has_role: bool, role: u64, display_name: &str) -> (r: (bool, String))
    ensures
        r.0 == !has_role,
        has_role ==> r.1@ == "Removed <@&"@ + decimal(role as nat) + "> from user "@ + display_name@,
        !has_role ==> r.1@ == "Gave <@&"@ + decimal(role as nat) + "> to user "@ + display_name@,
{
    let mut s = if has_role {
        String::from_str("Removed <@&")
    } else {
        String::from_str("Gave <@&")
    };
    push_decimal(&mut s, role);
    if has_role {
        s.append("> from user ");
    } else {
        s.append("> to user ");
    }
    s.append(display_name);
    (!has_role, s)
}

} // verus!
