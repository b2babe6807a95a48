use std::cmp::Ordering;

use girlpound::cards::{Card, Rank, Suit};
use girlpound::emoji::EmojiTable;
use girlpound::hand::Hand;
use girlpound::poker::{
    selected_indices, ButtonKind, LobbyStage, Player, PokerLobby, LOBBY_FULL, SELECTION_SECONDS,
};
use girlpound::poker_events::{
    cheater_notice, join_window_expired, LobbyInput, LobbyReply, LobbyTick, ALREADY_PICKED,
    BAD_SELECTION, BROKE, NOT_DEALT, NOT_PLAYING, WagerStep,
};

fn player(id: u64, name: &str) -> Player {
    Player { id, name: name.to_string() }
}

fn full_table() -> EmojiTable {
    let mut t = EmojiTable::new();
    for key in ["catcoin", "defense_position", "attack_position", "card_back"] {
        t.insert(key.to_string(), format!("<{key}>"));
    }
    let words = ["2", "3", "4", "5", "6", "7", "8", "9", "10", "jack", "queen", "king", "ace"];
    for color in ["red", "black"] {
        for w in words {
            t.insert(format!("{color}_{w}_top"), format!("[{color}{w}]"));
        }
    }
    for s in ["heart_bottom", "diamond_bottom", "club_bottom", "spade_bottom"] {
        t.insert(s.to_string(), format!("[{s}]"));
    }
    t
}

#[test]
fn new_lobby_is_empty_with_full_deck() {
    let lobby = PokerLobby::new(25, "77");
    assert_eq!(lobby.wager(), 25);
    assert_eq!(lobby.deck_len(), 52);
    assert!(!lobby.is_ready());
    assert!(!lobby.are_selections_done());
    assert_eq!(lobby.uuid_text(), "77");
    assert_eq!(lobby.stage(), LobbyStage::Joining);
}

#[test]
fn registering_fills_seats_then_refuses() {
    let mut lobby = PokerLobby::new(10, "1");
    assert!(lobby.try_register_player(player(1, "a")).is_ok());
    assert!(!lobby.is_ready());
    assert!(lobby.try_register_player(player(2, "b")).is_ok());
    assert!(lobby.is_ready());
    assert_eq!(lobby.try_register_player(player(3, "c")), Err(LOBBY_FULL));
    assert_eq!(lobby.get_player_num(1), Some(1));
    assert_eq!(lobby.get_player_num(2), Some(2));
    assert_eq!(lobby.get_player_num(3), None);
}

#[test]
fn start_round_deals_two_hands_and_sets_deadline() {
    let mut lobby = PokerLobby::new(10, "1");
    lobby.try_register_player(player(1, "a")).unwrap();
    lobby.try_register_player(player(2, "b")).unwrap();
    lobby.start_round(1000);
    assert_eq!(lobby.deck_len(), 42);
    assert!(lobby.get_hand(1).is_some());
    assert!(lobby.get_hand(2).is_some());
    assert!(lobby.get_hand(3).is_none());
    assert_eq!(lobby.format_timeout_timestamp(), format!("<t:{}:R>", 1000 + SELECTION_SECONDS));
    assert!(!lobby.is_player_timeout_expired(1029));
    assert!(lobby.is_player_timeout_expired(1030));
    assert_eq!(lobby.stage(), LobbyStage::Drawing);
}

#[test]
fn wagers_start_the_round_or_name_who_could_not_pay() {
    let seated = || {
        let mut lobby = PokerLobby::new(10, "1");
        lobby.try_register_player(player(1, "a")).unwrap();
        lobby.try_register_player(player(2, "b")).unwrap();
        lobby
    };
    let mut lobby = seated();
    assert_eq!(lobby.after_wagers(false, true, 1000), WagerStep::Abort { cheater: 1 });
    assert_eq!(lobby.deck_len(), 52);
    assert!(lobby.get_hand(1).is_none());
    assert_eq!(cheater_notice(1), "<@1> twied to cheat. game aborted");
    let mut lobby = seated();
    assert_eq!(lobby.after_wagers(true, false, 1000), WagerStep::Abort { cheater: 2 });
    assert_eq!(lobby.stage(), seated().stage());
    let mut lobby = seated();
    assert_eq!(lobby.after_wagers(true, true, 1000), WagerStep::Started);
    assert_eq!(lobby.deck_len(), 42);
    assert_eq!(lobby.stage(), LobbyStage::Drawing);
}

#[test]
fn timeout_text_empty_without_deadline() {
    let lobby = PokerLobby::new(10, "1");
    assert_eq!(lobby.format_timeout_timestamp(), "");
    assert!(!lobby.is_player_timeout_expired(u64::MAX));
}

#[test]
fn selection_values_name_card_indices() {
    let values = vec!["card0".to_string(), "none".to_string(), "card4".to_string(), "cardx".to_string(), "card+2".to_string()];
    assert_eq!(selected_indices(&values), vec![0, 4, 2]);
}

#[test]
fn picking_none_keeps_hand_and_marks_selected() {
    let mut lobby = PokerLobby::new(10, "1");
    lobby.try_register_player(player(1, "a")).unwrap();
    lobby.try_register_player(player(2, "b")).unwrap();
    lobby.start_round(0);
    let before = *lobby.get_hand(1).unwrap();
    lobby.process_card_selection(1, &["none".to_string(), "card0".to_string()]);
    assert_eq!(*lobby.get_hand(1).unwrap(), before);
    assert!(lobby.has_selected(1));
    assert!(!lobby.has_selected(2));
    assert_eq!(lobby.deck_len(), 42);
    assert_eq!(lobby.player_status(1), " (ready)");
    assert_eq!(lobby.player_status(2), "");
}

#[test]
fn redrawing_takes_cards_from_deck() {
    let mut lobby = PokerLobby::new(10, "1");
    lobby.try_register_player(player(1, "a")).unwrap();
    lobby.try_register_player(player(2, "b")).unwrap();
    lobby.start_round(0);
    lobby.process_card_selection(2, &["card1".to_string(), "card3".to_string()]);
    assert_eq!(lobby.deck_len(), 40);
    assert_eq!(lobby.player_status(2), " (redrew 2 cards)");
    lobby.process_card_selection(1, &["card1".to_string()]);
    assert_eq!(lobby.player_status(1), " (redrew 1 card)");
    assert!(lobby.are_selections_done());
    assert_eq!(lobby.stage(), LobbyStage::Finished);
    // a second pick changes nothing
    lobby.process_card_selection(1, &["card0".to_string()]);
    assert_eq!(lobby.deck_len(), 39);
}

#[test]
fn timeout_selects_everyone() {
    let mut lobby = PokerLobby::new(10, "1");
    lobby.try_register_player(player(1, "a")).unwrap();
    lobby.try_register_player(player(2, "b")).unwrap();
    lobby.start_round(100);
    assert_eq!(lobby.on_tick(120, 0, true), LobbyTick::Wait);
    assert_eq!(lobby.on_tick(130, 0, true), LobbyTick::Finish);
    assert!(lobby.are_selections_done());
}

#[test]
fn idle_lobby_is_abandoned_after_join_window() {
    let mut lobby = PokerLobby::new(10, "1");
    assert_eq!(lobby.on_tick(1600, 1000, true), LobbyTick::Wait);
    assert_eq!(lobby.on_tick(1601, 1000, false), LobbyTick::Wait);
    assert_eq!(lobby.on_tick(1601, 1000, true), LobbyTick::Abandon);
    assert!(join_window_expired(-10, 591));
    assert!(!join_window_expired(i64::MAX, 0));
    assert!(join_window_expired(i64::MIN, 0));
}

#[test]
fn settle_pays_the_stronger_hand() {
    let mut lobby = PokerLobby::new(50, "1");
    lobby.try_register_player(player(10, "a")).unwrap();
    lobby.try_register_player(player(20, "b")).unwrap();
    lobby.start_round(0);
    let h1 = *lobby.get_hand(1).unwrap();
    let h2 = *lobby.get_hand(2).unwrap();
    let s = lobby.settle();
    match h1.compare(&h2) {
        Ordering::Greater => {
            assert_eq!(s.winner, Some(10));
            assert_eq!(s.grants, vec![(10, 100)]);
        }
        Ordering::Less => {
            assert_eq!(s.winner, Some(20));
            assert_eq!(s.grants, vec![(20, 100)]);
        }
        Ordering::Equal => {
            assert_eq!(s.winner, None);
            assert_eq!(s.grants, vec![(20, 50), (10, 50)]);
        }
    }
}

#[test]
fn abort_message_mentions_refund_only_after_wagers() {
    let mut lobby = PokerLobby::new(10, "1");
    assert_eq!(lobby.abort_message("timed out"), "poker game aborted: timed out.");
    lobby.try_register_player(player(1, "a")).unwrap();
    lobby.try_register_player(player(2, "b")).unwrap();
    lobby.start_round(0);
    assert!(lobby.refunds_on_abort());
    assert_eq!(lobby.abort_message("broke"), "poker game aborted: broke. wagers refunded.");
}

#[test]
fn components_follow_the_stage() {
    let mut lobby = PokerLobby::new(10, "abc");
    let b = lobby.to_components();
    assert_eq!(b.len(), 1);
    assert_eq!(b[0].custom_id, "abc-join");
    assert_eq!(b[0].kind, ButtonKind::Primary);
    assert_eq!(b[0].emoji, Some('🃏'));
    lobby.try_register_player(player(1, "a")).unwrap();
    lobby.try_register_player(player(2, "b")).unwrap();
    lobby.start_round(0);
    let b = lobby.to_components();
    assert_eq!(b[0].custom_id, "abc-view");
    assert_eq!(b[0].label, "redraw cawds");
    lobby.auto_select_on_timeout(100);
    assert!(lobby.to_components().is_empty());
}

#[test]
fn embed_shows_seats_then_covered_hands() {
    let t = full_table();
    let mut lobby = PokerLobby::new(42, "1");
    lobby.try_register_player(player(7, "kitty")).unwrap();
    let e = lobby.to_embed(&t);
    assert_eq!(e.title, "♠️ poker - 42 <catcoin> wager ♦️");
    assert_eq!(e.fields[0].name, "<defense_position> defense player");
    assert_eq!(e.fields[0].value, "<@7>");
    assert_eq!(e.fields[1].name, "attack player <attack_position>");
    assert_eq!(e.fields[1].value, "open");
    assert!(e.description.is_none());
    lobby.try_register_player(player(8, "puppy")).unwrap();
    lobby.start_round(5);
    let e = lobby.to_embed(&t);
    assert_eq!(e.fields[0].name, "kitty's hand");
    assert_eq!(e.fields[1].name, "puppy's hand");
    assert_eq!(e.fields[0].value, "<card_back>".repeat(5));
    assert_eq!(e.description, Some("hands finalized <t:35:R>".to_string()));
}

#[test]
fn hand_is_drawn_with_emoji() {
    let t = full_table();
    let lobby = PokerLobby::new(1, "1");
    let h = Hand::new([
        Card::new(Rank::Ace, Suit::Hearts),
        Card::new(Rank::Ten, Suit::Spades),
        Card::new(Rank::Two, Suit::Diamonds),
        Card::new(Rank::Two, Suit::Clubs),
        Card::new(Rank::King, Suit::Hearts),
    ]);
    assert_eq!(
        lobby.format_hand(&t, &h),
        "[redace][redking][black10][red2][black2]\n[heart_bottom][heart_bottom][spade_bottom][diamond_bottom][club_bottom]"
    );
    assert!(lobby.format_hand_with_rank(&t, &h).ends_with("\n**One Pair**"));
}

#[test]
fn select_menu_lists_cards_and_none() {
    let mut lobby = PokerLobby::new(10, "u");
    lobby.try_register_player(player(1, "a")).unwrap();
    lobby.try_register_player(player(2, "b")).unwrap();
    lobby.start_round(0);
    let hand = *lobby.get_hand(2).unwrap();
    let m = lobby.get_card_select_menu(2);
    assert_eq!(m.custom_id, "u-select");
    assert_eq!(m.options.len(), 6);
    for i in 0..5 {
        assert_eq!(m.options[i].0, format!("{}. {} of {}", i + 1, hand.cards[i].rank.to_string(), hand.cards[i].suit.to_string()));
        assert_eq!(m.options[i].1, format!("card{i}"));
    }
    assert_eq!(m.options[5], ("none".to_string(), "none".to_string()));
    assert_eq!((m.min_values, m.max_values), (0, 6));
}

#[test]
fn join_input_checks_balance_and_seats() {
    let t = full_table();
    let mut lobby = PokerLobby::new(30, "1");
    assert!(matches!(lobby.handle_input(&t, LobbyInput::Join { user: player(1, "a"), balance: 29 }), LobbyReply::Refuse(m) if m == BROKE));
    assert!(matches!(lobby.handle_input(&t, LobbyInput::Join { user: player(1, "a"), balance: 30 }), LobbyReply::Refresh));
    assert!(matches!(lobby.handle_input(&t, LobbyInput::Join { user: player(2, "b"), balance: 100 }), LobbyReply::TakeWagers));
    assert!(matches!(lobby.handle_input(&t, LobbyInput::Join { user: player(3, "c"), balance: 100 }), LobbyReply::Refuse(m) if m == LOBBY_FULL));
}

#[test]
fn view_and_select_inputs() {
    let t = full_table();
    let mut lobby = PokerLobby::new(30, "1");
    lobby.handle_input(&t, LobbyInput::Join { user: player(1, "a"), balance: 100 });
    assert!(matches!(lobby.handle_input(&t, LobbyInput::View { user: 9 }), LobbyReply::Refuse(m) if m == NOT_PLAYING));
    assert!(matches!(lobby.handle_input(&t, LobbyInput::View { user: 1 }), LobbyReply::Refuse(m) if m == NOT_DEALT));
    lobby.handle_input(&t, LobbyInput::Join { user: player(2, "b"), balance: 100 });
    lobby.start_round(10);
    match lobby.handle_input(&t, LobbyInput::View { user: 1 }) {
        LobbyReply::ShowHand { content, menu } => {
            assert!(content.ends_with("\n\nselection time ends <t:40:R>"));
            assert_eq!(menu.custom_id, "1-select");
        }
        _ => panic!("expected the hand"),
    }
    assert!(matches!(lobby.handle_input(&t, LobbyInput::Select { user: 1, values: None }), LobbyReply::Refuse(m) if m == BAD_SELECTION));
    match lobby.handle_input(&t, LobbyInput::Select { user: 1, values: Some(vec!["none".to_string()]) }) {
        LobbyReply::Picked { content, finished } => {
            assert!(content.is_none());
            assert!(!finished);
        }
        _ => panic!("expected a pick"),
    }
    assert!(matches!(lobby.handle_input(&t, LobbyInput::Select { user: 1, values: Some(vec![]) }), LobbyReply::Refuse(m) if m == ALREADY_PICKED));
    match lobby.handle_input(&t, LobbyInput::Select { user: 2, values: Some(vec!["card0".to_string(), "card1".to_string()]) }) {
        LobbyReply::Picked { content, finished } => {
            assert!(content.unwrap().starts_with("you redrew 2 card(s).\n"));
            assert!(finished);
        }
        _ => panic!("expected a pick"),
    }
}

#[test]
fn cheater_notice_mentions_user() {
    assert_eq!(cheater_notice(55), "<@55> twied to cheat. game aborted");
}

#[test]
fn results_name_winner_and_hands() {
    let t = full_table();
    let mut lobby = PokerLobby::new(50, "1");
    lobby.try_register_player(player(10, "kitty")).unwrap();
    lobby.try_register_player(player(20, "puppy")).unwrap();
    lobby.start_round(0);
    let h1 = *lobby.get_hand(1).unwrap();
    let h2 = *lobby.get_hand(2).unwrap();
    let (r1, _) = h1.evaluate();
    let (r2, _) = h2.evaluate();
    let (l1, l2) = if r1 == r2 {
        ("tie one".to_string(), "tie two".to_string())
    } else {
        (r1.to_string(), r2.to_string())
    };
    let draw = lobby.results_embed(&t, None, "tie one", "tie two");
    assert_eq!(draw.title, "🏆 poker results 🏆");
    assert_eq!(draw.color, 0xFFD700);
    assert_eq!(draw.description, "draw!! <catcoin> catcoins have been returned >w<");
    let won = lobby.results_embed(&t, Some(20), "tie one", "tie two");
    assert_eq!(
        won.description,
        format!("<@20> stole +**50** <catcoin> with **{l2}** over <@10>'s **{l1}**")
    );
    let won = lobby.results_embed(&t, Some(10), "tie one", "tie two");
    assert_eq!(
        won.description,
        format!("<@10> stole +**50** <catcoin> with **{l1}** over <@20>'s **{l2}**")
    );
    let e = lobby.create_revealed_hands_embed(&t, "tie one", "tie two");
    assert_eq!(e.title, "♠️ poker - 50 <catcoin> wager ♦️");
    assert_eq!(e.fields[0].name, format!("kitty's hand ({l1})"));
    assert_eq!(e.fields[1].name, format!("puppy's hand ({l2})"));
    assert_eq!(e.fields[0].value, lobby.format_hand(&t, &h1));
    assert_eq!(e.fields[1].value, lobby.format_hand(&t, &h2));
    assert!(e.description.is_none());
}

#[test]
fn no_card_is_in_play_twice() {
    for _ in 0..20 {
        let mut lobby = PokerLobby::new(10, "1");
        lobby.try_register_player(player(1, "a")).unwrap();
        lobby.try_register_player(player(2, "b")).unwrap();
        lobby.start_round(0);
        assert_eq!(lobby.deck_len(), 42);
        lobby.process_card_selection(1, &["card0".to_string(), "card4".to_string(), "card2".to_string()]);
        lobby.process_card_selection(2, &["card3".to_string()]);
        assert_eq!(lobby.deck_len(), 38);
        let mut seen: Vec<Card> = Vec::new();
        for n in [1u8, 2] {
            for c in lobby.get_hand(n).unwrap().cards {
                assert!(!seen.contains(&c));
                seen.push(c);
            }
        }
    }
}
