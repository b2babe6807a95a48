use girlpound::birthday::{check_birthday, AgeCheck, INVALID_BIRTHDAY};
use girlpound::nsfw_bets::{
    callout_message, hour_passed_message, parse_guess, should_call_out, BetError, CalloutSet,
    NSFWBet, NSFWBets, PoolResult, HOUR_NANOS,
};
use girlpound::reminders::{
    confirmation, fits_wait_weight, remind_at, reminder_message, Reminder, ReminderError, ReminderManager,
};

fn reminder(mid: &str, at: i64) -> Reminder {
    Reminder { mid: mid.to_string(), uid: "5".to_string(), cid: "6".to_string(), remind_at: at }
}

#[test]
fn pop_ready_takes_due_reminders_in_order() {
    let mut m = ReminderManager::new(vec![reminder("a", 10), reminder("b", 50), reminder("c", 20)]);
    m.insert(reminder("d", 5));
    let ready = m.pop_ready(20);
    let mids: Vec<&str> = ready.iter().map(|r| r.mid.as_str()).collect();
    assert_eq!(mids, vec!["a", "c", "d"]);
    let rest = m.pop_ready(100);
    assert_eq!(rest.len(), 1);
    assert_eq!(rest[0].mid, "b");
    assert!(m.pop_ready(i64::MAX).is_empty());
}

#[test]
fn remind_at_adds_the_duration() {
    assert_eq!(remind_at(1000, "1s").ok(), Some(2000));
    assert_eq!(remind_at(0, "6d 3h").ok(), Some((6 * 24 + 3) * 3_600_000));
    assert_eq!(remind_at(0, "15ms").ok(), Some(15));
    assert!(matches!(remind_at(0, "soon"), Err(ReminderError::Duration(_))));
    assert!(matches!(remind_at(i64::MAX, "1s"), Err(ReminderError::OutOfRange)));
    assert!(matches!(
        remind_at(0, "18446744073709551615s 1000000000ns"),
        Err(ReminderError::TooLarge)
    ));
    assert_eq!(remind_at(0, "99999999999ms").ok(), Some(99_999_999_999));
    assert!(matches!(remind_at(0, "100000000000s"), Err(ReminderError::TooLarge)));
    assert_eq!(remind_at(0, "000000000000000001s").ok(), Some(1000));
    assert_eq!(remind_at(0, &"1h ".repeat(12)).ok(), Some(12 * 3_600_000));
    assert!(fits_wait_weight("6d 3h 15m"));
    assert!(fits_wait_weight("1.5h"));
    assert!(!fits_wait_weight("1 000 000 000 000s"));
}

#[test]
fn reminder_texts() {
    assert_eq!(confirmation(1_700_000_000_500), "I will ping you on: <t:1700000000:f>");
    assert_eq!(confirmation(-1500), "I will ping you on: <t:-2:f>");
    assert_eq!(
        reminder_message(&reminder("9", 0), 42),
        "<@5> Meow!!! Your reminder is up. https://discord.com/channels/42/6/9"
    );
}

#[test]
fn guesses_are_read() {
    assert_eq!(parse_guess("never"), Ok(None));
    assert_eq!(parse_guess("NeVeR"), Ok(None));
    assert_eq!(parse_guess("12:34"), Ok(Some(754)));
    assert_eq!(parse_guess("99:99"), Ok(Some(6039)));
    assert_eq!(parse_guess("1:23"), Err(BetError::BadFormat));
    assert_eq!(parse_guess("later"), Err(BetError::BadFormat));
    assert_eq!(parse_guess("١٢:٣٤"), Err(BetError::Unreadable));
    assert_eq!(BetError::Unreadable.message(), "invalid digit found in string");
    assert_eq!(BetError::AlreadyBet.message(), "You have already bet.");
}

#[test]
fn closest_guess_wins_first_on_ties() {
    let mut b = NSFWBet::new(1, 10, 100, 200);
    b.add_bet(2, Some(60));
    b.add_bet(3, None);
    b.add_bet(4, Some(140));
    b.add_bet(5, Some(100));
    assert_eq!(b.get_winner(100), Some((5, 100)));
    assert_eq!(b.get_winner(80), Some((2, 60)));
    assert_eq!(b.get_never_bets(), vec![3]);
    assert!(b.has_bet_already(4));
    assert!(!b.has_bet_already(1));
    let mut only_never = NSFWBet::new(1, 10, 100, 200);
    only_never.add_bet(2, None);
    assert_eq!(only_never.get_winner(5), None);
}

#[test]
fn betting_flow() {
    let mut pools = NSFWBets::new();
    assert_eq!(pools.on_join(1, 100, 200, 25), "Bet (25 coin)");
    assert_eq!(pools.prepare_bet(1, 1, 100, "never", 1000), Err(BetError::NotYou));
    assert_eq!(pools.prepare_bet(9, 2, 100, "never", 1000), Err(BetError::NoPool));
    assert_eq!(pools.prepare_bet(1, 2, 101, "never", 1000), Err(BetError::Outdated));
    assert_eq!(pools.prepare_bet(1, 2, 100, "never", 24), Err(BetError::Broke));
    assert_eq!(pools.prepare_bet(1, 2, 100, "x", 25), Err(BetError::BadFormat));
    assert_eq!(pools.prepare_bet(1, 2, 100, "01:00", 25), Ok(Some(60)));
    pools.place_bet(1, 2, Some(60));
    assert_eq!(pools.prepare_bet(1, 2, 100, "never", 25), Err(BetError::AlreadyBet));
    pools.place_bet(1, 3, Some(90));
    pools.place_bet(1, 4, None);
    assert_eq!(pools.get_pool(1).unwrap().bet_count(), 3);
    let closed = pools.on_nsfw_role_assigned(1, 80).unwrap();
    assert_eq!((closed.channel_id, closed.message_id), (200, 100));
    match closed.result {
        PoolResult::Won { winner, guess, pool_coin } => assert_eq!((winner, guess, pool_coin), (3, 90, 75)),
        _ => panic!("expected a winner"),
    }
    assert!(pools.get_pool(1).is_none());
    assert!(pools.on_nsfw_role_assigned(1, 80).is_none());
}

#[test]
fn single_bet_is_refunded_and_never_bettors_share() {
    let mut pools = NSFWBets::new();
    pools.create_pool(1, 10, 100, 200);
    pools.place_bet(1, 2, Some(30));
    match pools.on_hour_passed(1).unwrap().result {
        PoolResult::Refund { bettors, wager } => assert_eq!((bettors, wager), (vec![2], 10)),
        _ => panic!("expected a refund"),
    }
    pools.create_pool(1, 10, 100, 200);
    pools.place_bet(1, 2, None);
    pools.place_bet(1, 3, Some(5));
    pools.place_bet(1, 4, None);
    pools.place_bet(1, 5, None);
    pools.place_bet(1, 6, Some(7));
    match pools.on_hour_passed(1).unwrap().result {
        PoolResult::NeverWon { winners, win_amount } => {
            assert_eq!(winners, vec![2, 4, 5]);
            assert_eq!(win_amount, 17);
        }
        _ => panic!("expected never winners"),
    }
    pools.create_pool(1, 10, 100, 200);
    pools.place_bet(1, 2, Some(1));
    pools.place_bet(1, 3, Some(5));
    assert!(matches!(pools.on_hour_passed(1).unwrap().result, PoolResult::NoWinner));
    pools.create_pool(1, 10, 100, 200);
    pools.place_bet(1, 2, None);
    pools.place_bet(1, 3, None);
    assert!(matches!(pools.on_nsfw_role_assigned(1, 50).unwrap().result, PoolResult::NoWinner));
}

#[test]
fn leaving_refunds_everyone() {
    let mut pools = NSFWBets::new();
    pools.create_pool(7, 3, 1, 2);
    pools.place_bet(7, 8, None);
    pools.place_bet(7, 9, Some(3));
    match pools.on_leave(7).unwrap().result {
        PoolResult::Refund { bettors, wager } => assert_eq!((bettors, wager), (vec![8, 9], 3)),
        _ => panic!("expected a refund"),
    }
    assert!(pools.on_leave(7).is_none());
    pools.create_pool(7, 3, 1, 2);
    pools.remove_pool(7);
    assert!(pools.take_pool(7).is_none());
}

#[test]
fn callout_names_the_closest_guess() {
    let mut pools = NSFWBets::new();
    pools.create_pool(1, 5, 10, 20);
    pools.place_bet(1, 2, None);
    assert_eq!(pools.callout_winner(1, 100), None);
    assert!(pools.get_pool(1).is_some());
    pools.place_bet(1, 3, Some(3599));
    let win = pools.callout_winner(1, 3661);
    assert_eq!(win, Some((3, 3599, 10)));
    assert!(pools.get_pool(1).is_none());
    assert_eq!(
        callout_message(1, 3661, win, ":coin:"),
        "<@1> has assigned themselves the NSFW role. Time since joining: `01:01:01`\nClosest guess: `00:59:59` by <@3> (:coin: **+10**)"
    );
    assert_eq!(
        callout_message(1, 59, None, ":coin:"),
        "<@1> has assigned themselves the NSFW role. Time since joining: `00:00:59`"
    );
    assert_eq!(
        hour_passed_message(4, ":coin:", 17, 3),
        "<@4> lasted 1 hour. :coin: **+17** to the **3** who guessed 'never'!\n"
    );
}

#[test]
fn members_are_called_out_once() {
    let mut called = CalloutSet::new();
    assert!(!should_call_out(&mut called, 1, true, true, 0));
    assert!(!should_call_out(&mut called, 1, false, true, HOUR_NANOS + 1));
    assert!(should_call_out(&mut called, 1, false, true, HOUR_NANOS));
    assert!(!should_call_out(&mut called, 1, false, true, 5));
    assert!(should_call_out(&mut called, 2, false, true, 5));
    assert!(!called.insert(2));
    assert!(called.insert(3));
}

#[test]
fn birthdays_are_checked() {
    assert_eq!(check_birthday("01/01/1995", 2024, 6, 1), Some(AgeCheck::Adult));
    assert_eq!(check_birthday("6/2/2006", 2024, 6, 1), Some(AgeCheck::Underage));
    assert_eq!(check_birthday("6/1/2006", 2024, 6, 1), Some(AgeCheck::Adult));
    assert_eq!(check_birthday("02/29/2001", 2024, 6, 1), Some(AgeCheck::Invalid));
    assert_eq!(check_birthday("02/29/2000", 2024, 6, 1), Some(AgeCheck::Adult));
    assert_eq!(check_birthday("13/01/1990", 2024, 6, 1), Some(AgeCheck::Invalid));
    assert_eq!(check_birthday("01/01/2030", 2024, 6, 1), Some(AgeCheck::Invalid));
    assert_eq!(check_birthday("1995-01-01", 2024, 6, 1), Some(AgeCheck::Invalid));
    assert_eq!(INVALID_BIRTHDAY, "Invalid birthday format. Try again. Example: 01/01/1995");
}
