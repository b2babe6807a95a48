use girlpound::community::{
    cooldown_notice, hi_cat_reply, is_hi_cat, KATELYN_UID, welcome_message, NoticeQueue, QueuedNotice, INTROS,
};
use girlpound::emojirank::{
    codepoint_to_emoji, format_ranks, reaction_key, EmojiUsage, EmojiWatcher, RankRow, ReactionEmoji,
};
use girlpound::genimg::{GenImg, GenImgAction};

/// Hands out the pending counts and clears them, as a successful write does.
fn take_counts(w: &mut EmojiWatcher) -> Vec<(String, EmojiUsage)> {
    let v = w.pending_counts();
    w.clear_counts();
    v
}

#[test]
fn pending_counts_stay_until_cleared() {
    let mut w = EmojiWatcher::new();
    w.add_usage("9".to_string(), "cat".to_string(), true, false);
    let first = w.pending_counts();
    let again = w.pending_counts();
    assert_eq!(first.len(), 1);
    assert_eq!(again.len(), 1);
    assert_eq!((again[0].1.use_count, again[0].1.react_count), (1, 0));
    w.add_react("9".to_string(), "cat".to_string(), true, false);
    assert_eq!(w.pending_counts()[0].1.react_count, 1);
    w.clear_counts();
    assert!(w.pending_counts().is_empty());
}

#[test]
fn counts_follow_the_calls_in_any_order() {
    let mut w = EmojiWatcher::new();
    w.add_react("3".to_string(), "first".to_string(), false, true);
    w.add_usage("4".to_string(), "other".to_string(), true, false);
    w.add_usage("3".to_string(), "second".to_string(), true, false);
    w.add_react("3".to_string(), "third".to_string(), true, false);
    w.add_usage("3".to_string(), "fourth".to_string(), true, false);
    let mut counts = take_counts(&mut w);
    counts.sort_by(|a, b| a.0.cmp(&b.0));
    assert_eq!(counts[0].0, "3");
    assert_eq!((counts[0].1.use_count, counts[0].1.react_count), (2, 2));
    assert_eq!(counts[0].1.name, "first");
    assert!(!counts[0].1.is_discord && counts[0].1.animated);
    assert_eq!((counts[1].1.use_count, counts[1].1.react_count), (1, 0));
}

#[test]
fn emoji_counts_add_up() {
    let mut w = EmojiWatcher::new();
    w.add_usage("1".to_string(), "cat".to_string(), true, false);
    w.add_usage("1".to_string(), "other".to_string(), false, true);
    w.add_react("1".to_string(), "cat".to_string(), true, false);
    w.rm_react("2".to_string(), "dog".to_string(), false, false);
    let mut counts = take_counts(&mut w);
    counts.sort_by(|a, b| a.0.cmp(&b.0));
    assert_eq!(counts.len(), 2);
    assert_eq!(counts[0].0, "1");
    assert_eq!(counts[0].1.name, "cat");
    assert_eq!((counts[0].1.use_count, counts[0].1.react_count), (2, 1));
    assert!(counts[0].1.is_discord && !counts[0].1.animated);
    assert_eq!(counts[1].0, "2");
    assert_eq!((counts[1].1.use_count, counts[1].1.react_count), (0, -1));
    assert!(take_counts(&mut w).is_empty());
}

#[test]
fn react_then_unreact_restores_counts() {
    let mut w = EmojiWatcher::new();
    w.add_usage("5".to_string(), "x".to_string(), false, false);
    w.add_react("5".to_string(), "x".to_string(), false, false);
    w.rm_react("5".to_string(), "x".to_string(), false, false);
    let counts = take_counts(&mut w);
    assert_eq!((counts[0].1.use_count, counts[0].1.react_count), (1, 0));
}

#[test]
fn message_counts_each_emoji_once() {
    let mut w = EmojiWatcher::new();
    w.watch_message("hi <:cat:123> and <a:dance:77> and <:cat:123> again", false);
    let mut counts = take_counts(&mut w);
    counts.sort_by(|a, b| a.0.cmp(&b.0));
    assert_eq!(counts.len(), 2);
    assert_eq!(counts[0].0, "123");
    assert_eq!(counts[0].1.name, "cat");
    assert_eq!(counts[0].1.use_count, 1);
    assert!(!counts[0].1.animated);
    assert_eq!(counts[1].0, "77");
    assert!(counts[1].1.animated);
    w.watch_message("<:cat:123>", true);
    assert!(take_counts(&mut w).is_empty());
}

#[test]
fn message_counts_unicode_emoji() {
    let mut w = EmojiWatcher::new();
    w.watch_message("meow 😺", false);
    let counts = take_counts(&mut w);
    assert_eq!(counts.len(), 1);
    assert!(!counts[0].1.is_discord);
    assert_eq!(codepoint_to_emoji(counts[0].0.clone()), "😺");
}

#[test]
fn codepoints_become_characters() {
    assert_eq!(codepoint_to_emoji("1F63A".to_string()), "😺");
    assert_eq!(codepoint_to_emoji("1F441 200D 1F5E8".to_string()), "👁\u{200d}🗨");
    assert_eq!(codepoint_to_emoji("D800".to_string()), "\u{FFFD}");
    assert_eq!(codepoint_to_emoji("+41".to_string()), "A");
}

#[test]
fn ranks_are_numbered_lines() {
    let rows = vec![
        RankRow { is_discord: 1, animated: 0, name: "cat".to_string(), eid: "12".to_string(), count: 40 },
        RankRow { is_discord: 1, animated: 1, name: "dance".to_string(), eid: "13".to_string(), count: 3 },
        RankRow { is_discord: 0, animated: 0, name: "grin".to_string(), eid: "1F600".to_string(), count: -2 },
    ];
    assert_eq!(format_ranks(&rows), "1. <:cat:12> - `40`\n2. <a:dance:13> - `3`\n3. 😀 - `-2`");
    assert_eq!(format_ranks(&vec![]), "");
}

#[test]
fn welcome_and_small_texts() {
    assert_eq!(welcome_message(None, 5, 0, 100), format!(":white_check_mark: <@5> {} | total meowmbers: 100", INTROS[0]));
    assert_eq!(welcome_message(Some("<:hi:1>"), 5, 12, 7), "<:hi:1> <@5> hi fag <3 | total meowmbers: 7");
    assert_eq!(hi_cat_reply(3), "\"hi cat\" counter: 3");
    assert_eq!(cooldown_notice(2, 1700000000), "<@2> guh!! >_<... post again <t:1700000000:R>");
}

#[test]
fn notice_queue_hands_out_due_notices() {
    let mut q = NoticeQueue::new();
    q.push(QueuedNotice { user: 1, channel: 2, delete_at: 100, message: 10 });
    q.push(QueuedNotice { user: 3, channel: 2, delete_at: 200, message: 11 });
    assert!(q.has_notice(1, 2));
    assert!(!q.has_notice(1, 3));
    assert!(q.take_due(100).is_empty());
    let due = q.take_due(150);
    assert_eq!(due.len(), 1);
    assert_eq!(due[0].message, 10);
    assert!(!q.has_notice(1, 2));
    assert!(q.has_notice(3, 2));
}

#[test]
fn image_role_cycle() {
    let mut g = GenImg::new();
    // not a member: the role goes
    assert_eq!(g.on_message(1, false, false, true, true, true, 0), GenImgAction::RemoveRole);
    // a member without the role who never posted gets it
    assert_eq!(g.on_message(1, true, false, false, true, false, 0), GenImgAction::AddRole);
    // posting an image in general takes it away
    assert_eq!(g.on_message(1, true, false, true, true, true, 1000), GenImgAction::RemoveRole);
    // twelve hours later, exactly, it is not back yet
    assert_eq!(g.on_message(1, true, false, false, true, false, 1000 + 43_200_000), GenImgAction::Nothing);
    assert_eq!(g.on_message(1, true, false, false, true, false, 1001 + 43_200_000), GenImgAction::AddRole);
    // outside general nothing happens
    assert_eq!(g.on_message(2, true, false, true, false, true, 5), GenImgAction::Nothing);
    // ignored roles lose it
    assert_eq!(g.on_message(2, true, true, true, true, true, 5), GenImgAction::RemoveRole);
}

#[test]
fn reactions_are_keyed() {
    assert_eq!(
        reaction_key(&ReactionEmoji::Custom { id: 55, name: None, animated: true }),
        Some(("55".to_string(), "Not Found".to_string(), true, true))
    );
    assert_eq!(
        reaction_key(&ReactionEmoji::Custom { id: 7, name: Some("cat".to_string()), animated: false }),
        Some(("7".to_string(), "cat".to_string(), true, false))
    );
    assert_eq!(
        reaction_key(&ReactionEmoji::Unicode("😀".to_string())),
        Some(("1F600".to_string(), "grinning face".to_string(), false, false))
    );
    assert_eq!(reaction_key(&ReactionEmoji::Unicode("abc".to_string())), None);
    assert_eq!(reaction_key(&ReactionEmoji::Other), None);
}

#[test]
fn hi_cat_counts_only_katelyn() {
    assert!(is_hi_cat(KATELYN_UID, "Hi Cat!!"));
    assert!(is_hi_cat(712534342445826078, "well hi cat"));
    assert!(!is_hi_cat(KATELYN_UID, "hi kat"));
    assert!(!is_hi_cat(5, "hi cat"));
}
