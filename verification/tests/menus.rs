use girlpound::autocomplete::{matches_partial, player_choices, server_choices, OnlinePlayer};
use girlpound::classes::{
    generate_classes_embed, create_class_select_components, emoji_id, VoiceMember, CLASS_BLURBS, CLASS_MENU_ID,
    CLASS_NAMES, TEAM_CLASS_BITS,
};
use girlpound::community::{
    bark_reply, media_check_applies, parse_id_list, player_count_name, raffle_reply,
};
use girlpound::text::split_text;
use girlpound::verses::{quote_verse, verse_reply, verse_text};
use girlpound::interactions::{
    favorite_selected_text, is_old_profile_message, is_old_status_message, profile_button,
    profile_button_ids, route_component, ComponentAction, ComponentData, ProfileButton,
    NOT_YOUR_PROFILE, NO_CHOICE,
};
use girlpound::poker::selected_indices;

fn class_emojis() -> Vec<String> {
    (0..9).map(|i| format!("<:class{i}:{}>", 100 + i)).collect()
}

#[test]
fn class_menu_options() {
    assert_eq!(CLASS_MENU_ID, "profile.edit.class.select");
    assert_eq!(emoji_id("<:scout:123>"), Some(123));
    assert_eq!(emoji_id("x <a:spin:9> <:b:10>"), Some(9));
    assert_eq!(emoji_id(":scout:"), None);
    let options = create_class_select_components(&class_emojis()).unwrap();
    assert_eq!(options.len(), 9);
    for (i, o) in options.iter().enumerate() {
        assert_eq!(o.label, CLASS_NAMES[i]);
        assert_eq!(o.value, i.to_string());
        assert_eq!(o.description, CLASS_BLURBS[i]);
        assert_eq!(o.emoji_id, 100 + i as u64);
    }
    assert_eq!(options[3].label, "Demo");
    let mut broken = class_emojis();
    broken[4] = "heavy".to_string();
    assert!(create_class_select_components(&broken).is_none());
    let mut huge = class_emojis();
    huge[0] = "<:big:99999999999999999999>".to_string();
    assert!(create_class_select_components(&huge).is_none());
}

fn member(id: u64, name: &str, classes: Option<u16>) -> VoiceMember {
    VoiceMember { id, name: name.to_string(), classes }
}

#[test]
fn classes_embed_lists_players() {
    assert_eq!(TEAM_CLASS_BITS, [0, 1, 3, 6]);
    let members = vec![
        member(1, "a", Some(0b1)),
        member(2, "b", Some(0b1001001)),
        member(3, "c", Some(0b10)),
        member(4, "d", Some(0b100)),
        member(5, "e", None),
    ];
    let e = generate_classes_embed(&members, &class_emojis());
    assert_eq!(e.title, "Class availability");
    let fields: Vec<(String, String, bool)> =
        e.fields.iter().map(|f| (f.name.clone(), f.value.clone(), f.inline)).collect();
    assert_eq!(
        fields,
        vec![
            ("<:class0:100>".to_string(), "<@1>\n<@2>".to_string(), true),
            ("<:class1:101>".to_string(), "<@3>".to_string(), true),
            ("<:class3:103>".to_string(), "<@2>".to_string(), true),
            ("<:class6:106>".to_string(), "<@2>".to_string(), true),
            ("None of the above".to_string(), "<@4>\n<@5>".to_string(), true),
            ("No /profile".to_string(), "e".to_string(), true),
        ]
    );
    let everyone_plays = vec![member(1, "a", Some(0b1))];
    let e = generate_classes_embed(&everyone_plays, &class_emojis());
    assert_eq!(e.fields.len(), 4);
    assert_eq!(e.fields[1].value, "");
}

#[test]
fn permanent_components_are_routed() {
    let sel = |v: &[&str]| ComponentData::StringSelect(v.iter().map(|s| s.to_string()).collect());
    assert!(matches!(route_component("stock-market.buy", &ComponentData::Other), ComponentAction::StockMarket));
    assert!(matches!(route_component("birthday.submit", &ComponentData::Button), ComponentAction::BirthdaySubmit));
    match route_component("profile.edit.select", &sel(&["color", "url"])) {
        ComponentAction::EditProfile(c) => assert_eq!(c, "color"),
        other => panic!("unexpected {other:?}"),
    }
    assert!(matches!(route_component("profile.edit.select", &sel(&[])), ComponentAction::NoChoice));
    assert!(matches!(route_component("profile.edit.select", &ComponentData::Button), ComponentAction::Acknowledge));
    assert!(matches!(route_component("delete.msg", &ComponentData::Button), ComponentAction::DeleteMessage));
    assert!(matches!(route_component("delete.msg", &sel(&["x"])), ComponentAction::Ignore));
    assert!(matches!(route_component("profile.edit.classes", &ComponentData::Button), ComponentAction::OpenClassMenu));
    assert!(matches!(route_component("profile.edit.class.select", &sel(&["6"])), ComponentAction::ToggleClass(6)));
    assert!(matches!(route_component("profile.edit.class.select", &sel(&["256"])), ComponentAction::BadClassChoice));
    assert!(matches!(route_component("profile.edit.class.select", &sel(&["x"])), ComponentAction::BadClassChoice));
    assert!(matches!(
        route_component("profile.edit.favorite.select", &ComponentData::UserSelect(vec![42, 7])),
        ComponentAction::SetFavoriteUser(42)
    ));
    assert!(matches!(
        route_component("profile.edit.favorite.select", &ComponentData::UserSelect(vec![])),
        ComponentAction::NoChoice
    ));
    assert!(matches!(route_component("steam.link", &ComponentData::Other), ComponentAction::LinkSteam));
    assert!(matches!(route_component("unknown", &ComponentData::Button), ComponentAction::Ignore));
    assert_eq!(NO_CHOICE, "No choice");
    assert_eq!(favorite_selected_text(42), "Selected <@42> as your favorite.");
}

#[test]
fn profile_buttons() {
    let (like, dislike, edit, reload) = profile_button_ids("77");
    assert_eq!((like.as_str(), dislike.as_str(), edit.as_str(), reload.as_str()), ("77-like", "77-dislike", "77-edit", "77-reload"));
    assert_eq!(profile_button("77", "77-like", 1, 2), ProfileButton::Vote(true));
    assert_eq!(profile_button("77", "77-dislike", 1, 2), ProfileButton::Vote(false));
    assert_eq!(profile_button("77", "77-edit", 2, 2), ProfileButton::Edit);
    assert_eq!(profile_button("77", "77-edit", 1, 2), ProfileButton::NotYours);
    assert_eq!(profile_button("77", "77-reload", 1, 2), ProfileButton::Reload);
    assert_eq!(profile_button("77", "78-like", 1, 2), ProfileButton::Ignore);
    assert_eq!(NOT_YOUR_PROFILE, "This is not your profile! >:3");
}

#[test]
fn old_messages_are_recognised() {
    assert!(is_old_profile_message(true, Some("Votes"), Some(5), 5));
    assert!(!is_old_profile_message(false, Some("Votes"), Some(5), 5));
    assert!(!is_old_profile_message(true, Some("Stats"), Some(5), 5));
    assert!(!is_old_profile_message(true, None, Some(5), 5));
    assert!(!is_old_profile_message(true, Some("Votes"), Some(6), 5));
    assert!(!is_old_profile_message(true, Some("Votes"), None, 5));
    assert!(is_old_status_message(true, "🅰️ wacky 3/24"));
    assert!(is_old_status_message(true, "💀 down"));
    assert!(!is_old_status_message(false, "🅱️ x"));
    assert!(!is_old_status_message(true, "hello"));
}

#[test]
fn menu_values_select_their_cards() {
    let values: Vec<String> = [4usize, 0, 2].iter().map(|i| format!("card{i}")).collect();
    assert_eq!(selected_indices(&values), vec![4, 0, 2]);
}

#[test]
fn bark_and_player_count_texts() {
    assert_eq!(
        bark_reply(&vec!["kitty".to_string(), "pup".to_string()]),
        "Barking is strictly prohibited. Your ID has been logged.\nLast 15 infractions:```\nkitty\npup\n```"
    );
    assert_eq!(
        bark_reply(&vec![]),
        "Barking is strictly prohibited. Your ID has been logged.\nLast 15 infractions:```\n```"
    );
    assert_eq!(player_count_name(":w:", 3, 24), ":w: 3/24 online");
}

#[test]
fn media_channels_are_read_and_checked() {
    assert_eq!(parse_id_list("12,34,5"), Some(vec![12, 34, 5]));
    assert_eq!(parse_id_list("12"), Some(vec![12]));
    assert_eq!(parse_id_list("12,,5"), None);
    assert_eq!(parse_id_list(""), None);
    assert_eq!(parse_id_list("12, 5"), None);
    assert_eq!(split_text("a,b,,c", ','), vec!["a", "b", "", "c"]);
    assert_eq!(split_text("", ','), vec![""]);
    let channels = vec![12, 34];
    assert!(media_check_applies(&channels, 34, true, false));
    assert!(media_check_applies(&channels, 12, false, true));
    assert!(!media_check_applies(&channels, 12, false, false));
    assert!(!media_check_applies(&channels, 99, true, true));
}

#[test]
fn verses_are_quoted_and_sometimes_uwuified() {
    assert_eq!(verse_text("  hello world \n"), "hello world");
    assert_eq!(quote_verse("x", "Gen 1:1"), "\"x\" (Gen 1:1).");
    assert_eq!(verse_reply(" hello world ", "John 3:16"), "\"hello world\" (John 3:16).");
    let uwu = uwuifier::uwuify_str_sse(&verse_text(" hello world "));
    assert_eq!(quote_verse(&uwu, "John 3:16"), "\"hewwo wowwd\" (John 3:16).");
}

#[test]
fn autocomplete_ignores_case() {
    let players = vec![
        OnlinePlayer { name: "KittyCat".to_string(), id: "[U:1:1]".to_string() },
        OnlinePlayer { name: "doggo".to_string(), id: "[U:1:2]".to_string() },
        OnlinePlayer { name: "ÉCLAIR".to_string(), id: "[U:1:3]".to_string() },
    ];
    assert!(matches_partial("KittyCat", "tyc"));
    assert!(!matches_partial("doggo", "cat"));
    assert!(matches_partial("anything", ""));
    assert_eq!(
        player_choices(&players, "CAT", false),
        vec![("KittyCat".to_string(), "KittyCat".to_string())]
    );
    assert_eq!(
        player_choices(&players, "éc", true),
        vec![("ÉCLAIR [U:1:3]".to_string(), "[U:1:3]".to_string())]
    );
    assert_eq!(player_choices(&players, "zzz", true), vec![]);
    let servers = vec!["Wacky".to_string(), "Mario Kart".to_string(), "wackier".to_string()];
    assert_eq!(server_choices(&servers, "WACK"), vec![0, 2]);
    assert_eq!(server_choices(&servers, ""), vec![0, 1, 2]);
}

#[test]
fn raffle_picks_one_who_reacted() {
    let names = vec!["a#1".to_string(), "b#2".to_string(), "c#3".to_string()];
    for _ in 0..20 {
        let s = raffle_reply("🐱", &names);
        assert!(names.iter().any(|n| s == format!("emoji: 🐱\ncount: 3\nchosen: {n}")));
    }
    assert_eq!(raffle_reply("x", &vec!["only".to_string()]), "emoji: x\ncount: 1\nchosen: only");
}
