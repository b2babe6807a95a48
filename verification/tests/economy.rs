use girlpound::pulls::{
    pick_reward, pull_description, pull_title_text, CatcoinPull, CatcoinPullMessageData,
    InventoryPager, PaginatedInventory, PullParseError, Rarity, Reward, PAGE_SIZE,
};
use girlpound::wallet::{
    balance_text, drop_claim_text, drop_expired_text, drop_poor_text, drop_title, drop_zero_text,
    fill_trip_message, pay_refusal, pay_reply, push_mention, random_trip_msg, replace_all,
    spill_claim_text, top_list, TRIP_MESSAGES,
};

fn reward(id: i32, rarity: Rarity) -> Reward {
    Reward { id, name: format!("cat{id}"), file: format!("cat{id}.png"), rarity }
}

fn pull(id: i32) -> CatcoinPull {
    CatcoinPull {
        id,
        uid: 3,
        reward: reward(id, Rarity::Rare),
        number: id,
        catcoin: 5,
        created_at: 100,
        updated_at: 100,
    }
}

#[test]
fn rarities_by_roll() {
    assert_eq!(Rarity::from_roll(0), Rarity::Common);
    assert_eq!(Rarity::from_roll(68), Rarity::Common);
    assert_eq!(Rarity::from_roll(69), Rarity::Rare);
    assert_eq!(Rarity::from_roll(94), Rarity::Rare);
    assert_eq!(Rarity::from_roll(95), Rarity::Fluffy);
    assert_eq!(Rarity::from_roll(99), Rarity::Fluffy);
    assert_eq!(Rarity::from_roll(100), Rarity::Peak);
    let r = Rarity::pick();
    assert!(matches!(r, Rarity::Common | Rarity::Rare | Rarity::Fluffy | Rarity::Peak));
}

#[test]
fn rarity_names_round_trip() {
    for r in [Rarity::Common, Rarity::Rare, Rarity::Fluffy, Rarity::Peak] {
        assert_eq!(Rarity::parse(r.to_string()), Some(r));
        assert_eq!(Rarity::from_str(r.to_string()), r);
    }
    assert_eq!(Rarity::parse("common"), None);
    assert_eq!(Rarity::Common.color(), (205, 127, 50));
    assert_eq!(Rarity::Rare.color(), (192, 192, 192));
}

#[test]
fn rewards_are_picked_of_the_rarity() {
    let drops = vec![reward(1, Rarity::Common), reward(2, Rarity::Peak), reward(3, Rarity::Common)];
    for _ in 0..20 {
        let i = pick_reward(&drops, Rarity::Common).unwrap();
        assert!(i == 0 || i == 2);
    }
    assert_eq!(pick_reward(&drops, Rarity::Peak), Some(1));
    assert_eq!(pick_reward(&drops, Rarity::Fluffy), None);
}

#[test]
fn pull_announcement_reads_back() {
    let title = pull_title_text(Rarity::Fluffy, "Mochi cat (rare)", 42);
    assert_eq!(title, ":bangbang: Fluffy Pull: Mochi cat (rare) #42 :sparkles:");
    let desc = pull_description("<:catcoin:1>", 250);
    assert_eq!(desc, "<:catcoin:1> **+250**");
    let d = CatcoinPullMessageData::from_message(Some((Some(title), Some(desc))), Some(77), 1234)
        .ok()
        .unwrap();
    assert_eq!(d.uid, 77);
    assert_eq!(d.rarity, Rarity::Fluffy);
    assert_eq!(d.name, "Mochi cat (rare)");
    assert_eq!(d.number, 42);
    assert_eq!(d.catcoin, 250);
    assert_eq!(d.created_at, 1234);
}

#[test]
fn pull_announcement_errors() {
    let t = Some(":bangbang: Rare Pull: x #1".to_string());
    let good_desc = Some("**+3**".to_string());
    let err = |e: Option<(Option<String>, Option<String>)>, r: Option<u64>| {
        CatcoinPullMessageData::from_message(e, r, 0).err().unwrap()
    };
    assert_eq!(err(None, Some(1)), PullParseError::NoEmbed);
    assert_eq!(err(Some((t.clone(), good_desc.clone())), None), PullParseError::NotReplying);
    assert_eq!(err(Some((None, good_desc.clone())), Some(1)), PullParseError::NoTitle);
    assert_eq!(err(Some((Some("hello".to_string()), good_desc.clone())), Some(1)), PullParseError::NoTitleMatch);
    assert_eq!(
        err(Some((Some(":bangbang: Rare Pull: x #99999999999".to_string()), good_desc.clone())), Some(1)),
        PullParseError::BadNumber
    );
    assert_eq!(err(Some((t.clone(), None)), Some(1)), PullParseError::NoDesc);
    assert_eq!(err(Some((t.clone(), Some("+3".to_string()))), Some(1)), PullParseError::NoDescMatch);
    assert_eq!(
        err(Some((t.clone(), Some("**+99999999999**".to_string()))), Some(1)),
        PullParseError::BadCatcoin
    );
}

#[test]
fn inventory_pages() {
    assert_eq!(PAGE_SIZE, 10);
    let rows: Vec<CatcoinPull> = (1..=11).map(pull).collect();
    let page = PaginatedInventory::from_rows(3, rows);
    assert_eq!(page.pulls().len(), 10);
    assert!(page.has_next());
    assert_eq!(page.user(), 3);
    assert_eq!(page.next_key(), Some(("Rare", 11)));
    let short = PaginatedInventory::from_rows(3, vec![pull(1), pull(2)]);
    assert!(!short.has_next());
    assert_eq!(short.next_key(), None);
    assert_eq!(
        short.description(":c:"),
        "(**+5** :c:) **Rare** cat1 `#1` | <t:100:R>\n(**+5** :c:) **Rare** cat2 `#2` | <t:100:R>"
    );
    let mut pager = InventoryPager::new("u", page);
    assert_eq!(pager.footer(), "Page 1");
    assert_eq!(
        pager.buttons(),
        vec![("u-next".to_string(), "➡️"), ("u-close".to_string(), "❌")]
    );
    assert!(pager.needs_fetch());
    pager.push_page(short);
    assert!(!pager.needs_fetch());
    pager.next();
    assert_eq!(pager.footer(), "Page 2");
    assert!(!pager.current().has_next());
    assert_eq!(
        pager.buttons(),
        vec![("u-prev".to_string(), "⬅️"), ("u-close".to_string(), "❌")]
    );
    pager.prev();
    assert_eq!(pager.footer(), "Page 1");
    assert!(pager.current().has_next());
}

#[test]
fn replace_all_matches_str_replace() {
    for (s, p, r) in [("aaa", "aa", "b"), ("%u and %u", "%u", "<@1>"), ("none", "x", "y"), ("", "a", "b")] {
        assert_eq!(replace_all(s, p, r), s.replace(p, r));
    }
    let mut s = String::from("hi ");
    push_mention(&mut s, 12);
    assert_eq!(s, "hi <@12>");
}

#[test]
fn trip_messages_are_filled() {
    assert_eq!(
        fill_trip_message(TRIP_MESSAGES[0], 5, 30, ":c:"),
        "meow!! >w< <@5> tripped and lost **30** :c:"
    );
    assert_eq!(
        fill_trip_message(TRIP_MESSAGES[2], 5, 30, ":c:"),
        "a kitty girl ripped a hole in <@5>'s pocket."
    );
    let m = random_trip_msg(1, 2, "E");
    assert!(TRIP_MESSAGES.iter().any(|t| fill_trip_message(t, 1, 2, "E") == m));
}

#[test]
fn payment_texts() {
    assert_eq!(pay_refusal(1, 1, 5, ":c:"), Some("Cannot send yourself catcoin!".to_string()));
    assert_eq!(pay_refusal(1, 2, 0, ":c:"), Some("Cannot send **0** :c:".to_string()));
    assert_eq!(pay_refusal(1, 2, 3, ":c:"), None);
    assert_eq!(pay_reply(true, 2, 3, ":c:"), ("Sent **3** :c: to <@2>.".to_string(), false));
    assert_eq!(pay_reply(false, 2, 3, ":c:"), ("You do not have enough catcoin :c:.".to_string(), true));
    assert_eq!(balance_text(":c:", -4), ":c: You have -4 catcoin.");
    assert_eq!(
        spill_claim_text(1, 1, 9, ":c:"),
        "<@1> picked their own **9** :c: back up. ^-^"
    );
    assert_eq!(
        spill_claim_text(1, 2, 9, ":c:"),
        "<@1> stole <@2>'s **9** :c: off the ground! >//<"
    );
}

#[test]
fn top_list_shows_ten() {
    let holders: Vec<(String, i64)> = (0..12).map(|i| (format!("n{i}"), 100 - i)).collect();
    let s = top_list(&holders, ":c:");
    let lines: Vec<&str> = s.lines().collect();
    assert_eq!(lines.len(), 10);
    assert_eq!(lines[0], "**1**. **n0** - 100 :c:");
    assert_eq!(lines[9], "**10**. **n9** - 91 :c:");
    assert_eq!(top_list(&vec![], ":c:"), "");
}

#[test]
fn drop_texts() {
    assert_eq!(drop_zero_text(":c:"), "Cannot drop **0** :c:");
    assert_eq!(drop_poor_text(7, ":c:"), "You do not have **7** :c:");
    assert_eq!(drop_title(Some("yay".to_string()), "kat", 7, ":c:"), "yay");
    assert_eq!(drop_title(None, "kat", 7, ":c:"), "kat dropped **7** :c: on the ground!");
    assert_eq!(drop_claim_text(1, 1, 7, ":c:"), Err("Cannot claim your own catcoin drop!"));
    assert_eq!(drop_claim_text(2, 1, 7, ":c:"), Ok("<@2> picked up <@1>'s **7** :c:.".to_string()));
    assert_eq!(drop_expired_text(1, 7, ":c:"), "<@1> Your drop has expired. Refunding **7** :c:");
}
