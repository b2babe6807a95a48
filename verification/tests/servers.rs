use girlpound::maps::{add_map, find_map, join_lines, list_maps, remove_map, text_contains};
use girlpound::server_logs::{accepts_log, batch_by_source, log_password};
use girlpound::order::{dedup_texts, sort_texts, text_lt, SortKey};
use girlpound::servers::{
    add_or_edit_line, bhop_command, bhop_reply, check_seedable, dihh_timeout, file_lines,
    next_domination_score, order_domination, player_cap_commands, player_cap_settings,
    pug_ping_text, rcon_reply, respawn_command, seed_ping_text, seed_too_soon_text,
    snipers_command, trim_text, SeedCooldown, SeedRefusal, MIN_PLAYER_CAP, SEED_COOLDOWN_MS,
};

fn strings(v: &[&str]) -> Vec<String> {
    v.iter().map(|s| s.to_string()).collect()
}

#[test]
fn text_order_matches_string_order() {
    let words = ["", "a", "ab", "b", "B", "é", "workshop/x", "aa"];
    for a in words {
        for b in words {
            assert_eq!(text_lt(a, b), a.to_string() < b.to_string(), "{a} {b}");
        }
    }
}

#[test]
fn sort_is_stable_and_ignores_workshop() {
    let v = strings(&["pl_upward", "workshop/cp_dustbowl", "cp_dustbowl", "ctf_2fort"]);
    assert_eq!(
        sort_texts(&v, SortKey::WithoutWorkshop),
        strings(&["workshop/cp_dustbowl", "cp_dustbowl", "ctf_2fort", "pl_upward"])
    );
    assert_eq!(
        sort_texts(&v, SortKey::Whole),
        strings(&["cp_dustbowl", "ctf_2fort", "pl_upward", "workshop/cp_dustbowl"])
    );
    let mut expected = v.clone();
    expected.sort();
    assert_eq!(sort_texts(&v, SortKey::Whole), expected);
    assert_eq!(dedup_texts(&strings(&["a", "a", "b", "a", "a"])), strings(&["a", "b", "a"]));
    let maps = strings(&["workshop/b", "a", "b", "workshop/a", "c", "a"]);
    let mut expected = maps.clone();
    expected.sort_by_key(|m| m.strip_prefix("workshop/").unwrap_or(m).to_string());
    assert_eq!(sort_texts(&maps, SortKey::WithoutWorkshop), expected);
    let mut deduped = expected.clone();
    deduped.dedup();
    assert_eq!(dedup_texts(&expected), deduped);
}

#[test]
fn map_cycle_edits() {
    let maps = strings(&["cp_badlands", "pl_upward"]);
    let added = add_map(&maps, "koth_harvest");
    assert_eq!(added, strings(&["cp_badlands", "koth_harvest", "pl_upward"]));
    assert_eq!(add_map(&added, "koth_harvest"), added);
    assert_eq!(find_map(&added, "harv"), Some(1));
    assert_eq!(find_map(&added, "zz"), None);
    assert_eq!(find_map(&added, ""), Some(0));
    let mut m = added.clone();
    assert_eq!(remove_map(&mut m, "pl_"), Some("pl_upward".to_string()));
    assert_eq!(m, strings(&["cp_badlands", "koth_harvest"]));
    assert_eq!(remove_map(&mut m, "nothing"), None);
    assert_eq!(list_maps(&added, Some("an")), strings(&["cp_badlands"]));
    assert_eq!(list_maps(&added, None), added);
    assert_eq!(join_lines(&added), "cp_badlands\nkoth_harvest\npl_upward");
    assert_eq!(join_lines(&vec![]), "");
    assert!(text_contains("abc", ""));
    assert!(text_contains("abc", "bc"));
    assert!(!text_contains("ab", "abc"));
}

#[test]
fn seeding_cooldown() {
    let mut c = SeedCooldown::new();
    assert_eq!(c.can_seed("wacky", 0), Ok(()));
    c.reset_seed_cooldown("wacky", 1000);
    assert_eq!(c.can_seed("wacky", 2000), Err(SEED_COOLDOWN_MS - 1000));
    assert_eq!(c.can_seed("wacky", 1000 + SEED_COOLDOWN_MS), Err(0));
    assert_eq!(c.can_seed("wacky", 1001 + SEED_COOLDOWN_MS), Ok(()));
    assert_eq!(c.can_seed("other", 2000), Ok(()));
    assert_eq!(check_seedable(false, 5), Err(SeedRefusal::NotSeedable));
    assert_eq!(check_seedable(true, 1), Err(SeedRefusal::TooFew));
    assert_eq!(check_seedable(true, 16), Err(SeedRefusal::TooMany));
    assert_eq!(check_seedable(true, 2), Ok(()));
    assert_eq!(SeedRefusal::TooFew.message(), "Server must have >2 players to ping.");
    assert_eq!(seed_too_soon_text(99), "Server was seeded too recently. Try again <t:99:R>");
}

#[test]
fn ping_texts() {
    assert_eq!(
        seed_ping_text(Some("come `now`"), 5, ":w:", 7, "2/24"),
        "come now\n<@&5> come fwag on :w: :3\nraowquested by: <@7>\n2/24"
    );
    assert_eq!(
        seed_ping_text(None, 5, ":w:", 7, "s"),
        "<@&5> come fwag on :w: :3\nraowquested by: <@7>\ns"
    );
    assert_eq!(pug_ping_text(None, 5, 7), "<@&5>\nraowquested by: <@7>");
    assert_eq!(pug_ping_text(Some("hi"), 5, 7), "hi\n<@&5>\nraowquested by: <@7>");
}

#[test]
fn player_caps() {
    assert_eq!(MIN_PLAYER_CAP, 24);
    let answer = "\"maxplayers\" is \"33\"";
    assert_eq!(player_cap_settings(10, answer), (24, 7));
    assert_eq!(player_cap_settings(30, answer), (30, 1));
    assert_eq!(player_cap_settings(40, answer), (32, 0));
    assert_eq!(player_cap_settings(30, "unknown"), (24, 0));
    let (rs, vmp, cmd) = player_cap_commands(24, 7);
    assert_eq!(rs, "sm_reserved_slots 7");
    assert_eq!(vmp, "sv_visiblemaxplayers 24");
    assert_eq!(cmd, "sm_reserved_slots 7;sv_visiblemaxplayers 24");
}

#[test]
fn server_commands() {
    assert_eq!(
        snipers_command(-1),
        "sm_classrestrict_blu_snipers -1; sm_classrestrict_red_snipers -1"
    );
    assert_eq!(bhop_command(true, false), "cm_enabled 1; cm_allow_autohop 0");
    assert_eq!(bhop_reply(":w:", true, true), ":w: `Enabled BHOP with autohop`");
    assert_eq!(bhop_reply(":w:", true, false), ":w: `Enabled BHOP without autohop`");
    assert_eq!(bhop_reply(":w:", false, true), ":w: `Disabled BHOP`");
    assert_eq!(respawn_command(None), "mp_disable_respawn_times");
    assert_eq!(
        respawn_command(Some(true)),
        "mp_disable_respawn_times 1; sm_lowpop_enabled 0"
    );
}

#[test]
fn timeouts_double_up_to_a_cap() {
    assert_eq!(dihh_timeout(0), 1);
    assert_eq!(dihh_timeout(3), 8);
    assert_eq!(dihh_timeout(21), 2_097_152);
    assert_eq!(dihh_timeout(22), 2_160_000);
    assert_eq!(dihh_timeout(63), 2_160_000);
}

#[test]
fn domination_scores() {
    assert_eq!(order_domination("a", "b"), ("a".to_string(), "b".to_string(), -1));
    assert_eq!(order_domination("b", "a"), ("a".to_string(), "b".to_string(), 1));
    assert_eq!(order_domination("x", "x"), ("x".to_string(), "x".to_string(), -1));
    assert_eq!(next_domination_score(None, 1), (1, 1));
    assert_eq!(next_domination_score(Some(3), -1), (2, -2));
    assert_eq!(next_domination_score(Some(-3), -1), (-4, 4));
}

#[test]
fn rcon_replies_are_sorted() {
    let results = vec![
        ("b".to_string(), Ok(String::new())),
        ("a".to_string(), Err(" failed".to_string())),
        ("c".to_string(), Ok("out".to_string())),
    ];
    assert_eq!(
        rcon_reply(&results),
        strings(&["a failed", "b:white_check_mark:\n", "c\n```out```"])
    );
}

#[test]
fn config_lines() {
    assert_eq!(trim_text("  x y \t\n"), "x y");
    assert_eq!(trim_text("\u{3000}z\u{a0}"), "z");
    let text = " a 1\nb 2 \n\nc";
    assert_eq!(file_lines(text), strings(&["a 1", "b 2", "", "c"]));
    assert_eq!(file_lines(""), strings(&[""]));
    let mut lines = strings(&["a 1", "b 2", "b 3"]);
    assert!(!add_or_edit_line(&mut lines, "b", "b 9"));
    assert_eq!(lines, strings(&["a 1", "b 9", "b 3"]));
    assert!(add_or_edit_line(&mut lines, "c", "c 0"));
    assert_eq!(lines, strings(&["a 1", "b 9", "b 3", "c 0"]));
}

#[test]
fn server_log_lines_are_batched() {
    let lines: Vec<(u64, String)> = vec![
        (2, "a".to_string()),
        (1, "b".to_string()),
        (2, "c".to_string()),
        (3, "".to_string()),
    ];
    assert_eq!(
        batch_by_source(&lines),
        vec![(2, "a\nc\n".to_string()), (1, "b\n".to_string()), (3, "\n".to_string())]
    );
    assert_eq!(batch_by_source(&vec![]), vec![]);
    assert_eq!(log_password(Some("pw".to_string())), Some("pw".to_string()));
    assert_eq!(log_password(Some(String::new())), None);
    assert_eq!(log_password(None), None);
    assert!(accepts_log(&None, &None));
    assert!(accepts_log(&Some("pw".to_string()), &Some("pw".to_string())));
    assert!(!accepts_log(&Some("pw".to_string()), &Some("no".to_string())));
    assert!(!accepts_log(&Some("pw".to_string()), &None));
}
