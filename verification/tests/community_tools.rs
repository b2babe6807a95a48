use girlpound::birthday::{AgeCheck, AgeModal};
use girlpound::links::{
    link_url, random_code, get_steam_link_content, LinkCodes, LinkError, SteamLinkCodeModal, CODE_CHARS,
    CODE_LIFETIME_MS,
};
use girlpound::wallet::{wallet_or_empty, CatcoinWallet};
use girlpound::logs::{logs_to_post, Log};
use girlpound::moderation::{
    ban_command, ban_id_command, ban_id_command_of, ban_raw_command, gag_command, INVALID_STEAM_ID, hammer_ban_target, kick_command, kick_raw_command,
    mute_command, pro_role_toggle, unban_command, unban_reply, ungag_command, unmute_command,
};
use girlpound::profile::{
    check_field, dispatch_profile_edit, edit_menu_options, find_color, find_color_hex, invalid_value_text,
    updated_text, ColorModal, DescriptionModal, FavoriteMapModal, FieldCheck, FieldValue, ImageModal,
    ProfileEdit, ProfileURLModal, TitleModal, EDIT_OPTIONS, LINK_OPTION, UNLINK_OPTION,
};
use girlpound::seeder::{Tracker, SEEDER_POP_THRESHOLD};

#[test]
fn steam_ids_are_banned_in_each_form() {
    assert_eq!(ban_id_command("STEAM_0:0:150459717", 60, None), Ok("sm_addban 60 STEAM_0:0:150459717 undesirable".to_string()));
    assert_eq!(ban_id_command("[U:1:125818436]", 5, Some("cheats")), Ok("sm_addban 5 [U:1:125818436] cheats".to_string()));
    assert_eq!(ban_id_command("U:1:125818436", 0, None), Ok("sm_addban 0 [U:1:125818436] undesirable".to_string()));
    assert_eq!(ban_id_command("bob", 60, None), Err(INVALID_STEAM_ID));
    assert_eq!(
        ban_id_command_of(Some((None, Some("U:1:7".to_string()))), 1, Some("x")),
        Ok("sm_addban 1 [U:1:7] x".to_string())
    );
    assert_eq!(ban_id_command_of(Some((None, None)), 1, None), Err(INVALID_STEAM_ID));
    assert_eq!(ban_id_command_of(None, 1, None), Err(INVALID_STEAM_ID));
}

#[test]
fn moderation_commands() {
    assert_eq!(ban_command("bob", 60, None), "sm_ban \"bob\" 60 undesirable");
    assert_eq!(ban_command("bob", 0, Some("cheats")), "sm_ban \"bob\" 0 cheats");
    assert_eq!(ban_raw_command("[U:1:2]", 5), "banid \"5\" [U:1:2] kick");
    assert_eq!(kick_raw_command("[U:1:2]", None), "kickid \"[U:1:2]\" 1984");
    assert_eq!(kick_command("bob", Some("bye")), "sm_kick \"bob\" bye");
    assert_eq!(mute_command("bob", None, None), "sm_mute \"bob\" 0 1984");
    assert_eq!(mute_command("bob", Some(3), Some("loud")), "sm_mute \"bob\" 3 loud");
    assert_eq!(unmute_command("bob", None), "sm_unmute \"bob\" vibin");
    assert_eq!(gag_command("bob", Some(9), None), "sm_gag \"bob\" 9 1984");
    assert_eq!(ungag_command("bob", None), "sm_ungag \"bob\" ");
    assert_eq!(unban_command("[U:1:2]", None), "sm_unban [U:1:2] chill");
    assert_eq!(unban_reply("765"), "Unbanned https://steamcommunity.com/profiles/765");
}

#[test]
fn hammer_bans_join_lines_only() {
    let line = "+ bob [U:1:123] joined";
    assert_eq!(hammer_ban_target(line, true, true, true), Some("[U:1:123]".to_string()));
    assert_eq!(hammer_ban_target("\\- bob [U:1:5] left", true, true, true), Some("[U:1:5]".to_string()));
    assert_eq!(hammer_ban_target(line, false, true, true), None);
    assert_eq!(hammer_ban_target(line, true, false, true), None);
    assert_eq!(hammer_ban_target(line, true, true, false), None);
    assert_eq!(hammer_ban_target("bob [U:1:123]", true, true, true), None);
    assert_eq!(hammer_ban_target("+ nobody", true, true, true), None);
}

#[test]
fn profile_menu_dispatch() {
    assert_eq!(
        dispatch_profile_edit("color"),
        Some(ProfileEdit::EditField { column: "color", check: FieldCheck::Color })
    );
    assert_eq!(dispatch_profile_edit("classes"), Some(ProfileEdit::OpenClassMenu));
    assert_eq!(
        dispatch_profile_edit("remove-image"),
        Some(ProfileEdit::Clear { column: "image", reply: "Removed image from profile." })
    );
    assert_eq!(dispatch_profile_edit("nothing"), None);
    for (_, value, _, _) in EDIT_OPTIONS {
        assert!(dispatch_profile_edit(value).is_some(), "{value}");
    }
    assert!(dispatch_profile_edit(LINK_OPTION.1).is_some());
    assert!(dispatch_profile_edit(UNLINK_OPTION.1).is_some());
    let without = edit_menu_options(false);
    assert_eq!(without.len(), 14);
    assert_eq!(without[0], LINK_OPTION);
    let with = edit_menu_options(true);
    assert_eq!(with.len(), 14);
    assert_eq!(with[13], UNLINK_OPTION);
    assert_eq!(with[0], EDIT_OPTIONS[0]);
}

#[test]
fn profile_values_are_checked() {
    assert_eq!(find_color("my color is #FF00aa!"), Some(Some(0xFF00AA)));
    assert_eq!(find_color("#12345"), None);
    assert_eq!(find_color("##0000001"), Some(Some(0)));
    assert_eq!(find_color_hex("a #abcdeF1 b").as_deref(), Some("abcdeF"));
    assert_eq!(find_color_hex("#12345g #ffffff"), Some("ffffff".to_string()));
    assert_eq!(find_color_hex("# 123456"), None);
    assert!(matches!(check_field(FieldCheck::Color, "x #00000g #0000ff".to_string()), Ok(FieldValue::Color(255))));
    assert!(matches!(check_field(FieldCheck::Color, "red".to_string()), Err("Not a valid color!")));
    assert!(matches!(check_field(FieldCheck::Url, "https://example.com/a".to_string()), Ok(FieldValue::Text(_))));
    assert!(matches!(check_field(FieldCheck::Url, "example".to_string()), Err("Invalid URL.")));
    assert!(matches!(check_field(FieldCheck::Title, "the % show".to_string()), Ok(FieldValue::Text(_))));
    assert!(matches!(check_field(FieldCheck::Title, "no name".to_string()), Err("No % symbol in output.")));
    assert!(matches!(check_field(FieldCheck::Any, "".to_string()), Ok(FieldValue::Text(_))));
    assert_eq!(invalid_value_text("url", "Invalid URL."), "Invalid value for field `url`: Invalid URL.");
    assert_eq!(updated_text("color", &FieldValue::Color(255)), "Updated field `color` with value `255`.");
    assert_eq!(
        updated_text("title", &FieldValue::Text("a%".to_string())),
        "Updated field `title` with value `a%`."
    );
}

#[test]
fn link_codes() {
    let mut codes = LinkCodes::new();
    let code = random_code();
    assert_eq!(code.chars().count(), 6);
    assert!(code.chars().all(|c| CODE_CHARS.contains(&c)));
    codes.insert_code(code.clone(), 765, 1000);
    assert!(codes.contains(&code));
    assert_eq!(codes.try_link_user(&code, 1000 + CODE_LIFETIME_MS), Ok(765));
    assert!(codes.contains(&code));
    assert_eq!(codes.try_link_user(&code, 1001 + CODE_LIFETIME_MS), Err(LinkError::Expired));
    assert!(!codes.contains(&code));
    assert_eq!(codes.try_link_user(&code, 0), Err(LinkError::NotFound));
    codes.insert_code("AAAAAA".to_string(), 1, i64::MAX);
    assert_eq!(codes.try_link_user("AAAAAA", i64::MAX), Ok(1));
    assert_eq!(LinkError::Expired.message(), "Code has expired");
    assert_eq!(LinkError::NotFound.message(), "Code not found");
    assert_eq!(link_url("https://x.gay"), "https://x.gay/steam-link");
}

#[test]
fn logs_after_the_last_are_posted_once_in_order() {
    let (ids, last) = logs_to_post(&vec![12, 7, 15, 12, 3, 10], 9);
    assert_eq!(ids, vec![10, 12, 15]);
    assert_eq!(last, 15);
    let (none, last) = logs_to_post(&vec![1, 2], 9);
    assert!(none.is_empty());
    assert_eq!(last, 9);
    assert_eq!(Log { id: 3_500_000 }.url(), "https://logs.tf/3500000");
}

fn ids(n: usize) -> Vec<String> {
    (0..n).map(|i| format!("[U:1:{i}]")).collect()
}

#[test]
fn seeding_time_is_credited_while_nearly_empty() {
    let mut t = Tracker::new(&ids(2), 100);
    assert!(t.is_seeding());
    assert_eq!(t.online_count(), 2);
    assert!(t.can_account_at(100));
    assert!(!t.can_account_at(99));
    t.on_leave("[U:1:0]", 160);
    assert_eq!(t.pending_flush(), vec![("[U:1:0]".to_string(), 60)]);
    t.on_leave("nobody", 170);
    assert_eq!(t.online_count(), 1);
    t.clear_flush_cache();
    assert!(t.pending_flush().is_empty());
}

#[test]
fn seeding_stops_above_the_threshold_and_restarts_below() {
    assert_eq!(SEEDER_POP_THRESHOLD, 12);
    let mut t = Tracker::new(&ids(12), 0);
    assert!(t.is_seeding());
    t.on_join("new".to_string(), 50);
    assert!(!t.is_seeding());
    let mut flushed = t.pending_flush();
    flushed.sort();
    assert_eq!(flushed.len(), 13);
    assert!(flushed.contains(&("new".to_string(), 0)));
    assert!(flushed.contains(&("[U:1:3]".to_string(), 50)));
    t.clear_flush_cache();
    t.on_leave("new", 80);
    assert!(t.is_seeding());
    assert!(t.pending_flush().is_empty());
    t.on_leave("[U:1:0]", 100);
    assert_eq!(t.pending_flush(), vec![("[U:1:0]".to_string(), 20)]);
    t.synchronize(&ids(3), 200);
    assert_eq!(t.online_count(), 3);
    let big = Tracker::new(&ids(13), 0);
    assert!(!big.is_seeding());
}

#[test]
fn pro_role_is_toggled() {
    assert_eq!(pro_role_toggle(true, 9, "kat"), (false, "Removed <@&9> from user kat".to_string()));
    assert_eq!(pro_role_toggle(false, 9, "kat"), (true, "Gave <@&9> to user kat".to_string()));
}

#[test]
fn steam_link_prompt_points_at_the_login_page() {
    let p = get_steam_link_content("https://x.gay/steam-link");
    assert_eq!(p.title, "Get a code from https://link.fluffycat.gay/steam-link & enter it below.");
    assert_eq!(p.url, "https://x.gay/steam-link");
    assert_eq!(p.get_code, ("https://x.gay/steam-link".to_string(), "Get Code", "☁️"));
    assert_eq!(p.enter_code, ("steam.link", "Enter Code", "🔗"));
}

#[test]
fn profile_forms_check_their_values() {
    let c = ColorModal { color: "#0000FF".to_string() };
    assert_eq!(c.column(), "color");
    assert!(matches!(c.value(), Ok(FieldValue::Color(255))));
    assert!(matches!(ColorModal { color: "blue".to_string() }.value(), Err("Not a valid color!")));
    assert!(matches!(TitleModal { title: "%'s page".to_string() }.value(), Ok(FieldValue::Text(_))));
    assert!(matches!(TitleModal { title: "page".to_string() }.value(), Err("No % symbol in output.")));
    assert!(matches!(ImageModal { image_url: "nope".to_string() }.value(), Err("Invalid URL.")));
    assert_eq!(ImageModal { image_url: String::new() }.column(), "image");
    assert!(matches!(
        ProfileURLModal { url: "https://fluffycat.gay".to_string() }.value(),
        Ok(FieldValue::Text(_))
    ));
    assert_eq!(FavoriteMapModal { map: String::new() }.column(), "favorite_map");
    match (DescriptionModal { description: "hi".to_string() }).value() {
        Ok(FieldValue::Text(t)) => assert_eq!(t, "hi"),
        _ => panic!("a description is any text"),
    }
}

#[test]
fn forms_for_birthday_and_link_code() {
    let m = AgeModal { birthday: "01/01/1990".to_string() };
    assert_eq!(m.age_check(2024, 1, 1), Some(AgeCheck::Adult));
    let mut codes = LinkCodes::new();
    codes.insert_code("ABCDEF".to_string(), 42, 0);
    let form = SteamLinkCodeModal { code: "ABCDEF".to_string() };
    assert_eq!(form.redeem(&mut codes, 10), Ok(42));
    assert_eq!(SteamLinkCodeModal { code: "ZZZZZZ".to_string() }.redeem(&mut codes, 10), Err(LinkError::NotFound));
}

#[test]
fn empty_wallet_for_unknown_user() {
    let w = wallet_or_empty(77, None);
    assert_eq!((w.uid.as_str(), w.catcoin), ("77", 0));
    let w = wallet_or_empty(77, Some(CatcoinWallet { uid: "77".to_string(), catcoin: 5 }));
    assert_eq!(w.catcoin, 5);
}
