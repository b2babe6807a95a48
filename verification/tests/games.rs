use girlpound::draft::{captain_prompt, draft_refusal, pick_prompt, retain_without, Draft, TOO_FEW_FOR_CAPTAINS};
use girlpound::duel::{
    duel_cheater_notice, result_message, Duel, DuelOutcome, DuelReply, DuelStep, Side, DUEL_BROKE,
    SOMEONE_ELSE, SPOT_TAKEN,
};
use girlpound::poker::Player;

fn p(id: u64) -> Player {
    Player { id, name: format!("p{id}") }
}

#[test]
fn duel_sides_fill_once() {
    let mut d = Duel::new(25, "9");
    assert!(d.try_register_defense(p(1)).is_ok());
    assert_eq!(d.try_register_defense(p(2)), Err(SPOT_TAKEN));
    assert_eq!(d.try_register_attack(p(1)), Err(SOMEONE_ELSE));
    assert!(!d.is_ready());
    assert!(d.try_register_attack(p(2)).is_ok());
    assert!(d.is_ready());
    d.reset();
    assert!(!d.is_ready());
    assert!(d.defense().is_none() && d.attack().is_none());
}

#[test]
fn failed_spend_names_the_cheater_and_reopens_the_duel() {
    let ready = || {
        let mut d = Duel::new(25, "9");
        d.try_register_defense(p(1)).unwrap();
        d.try_register_attack(p(2)).unwrap();
        d
    };
    let mut d = ready();
    assert_eq!(d.after_spends(false, true), DuelStep::Abort { cheater: 1 });
    assert!(d.defense().is_none() && d.attack().is_none());
    assert_eq!(d.to_components().len(), 2);
    let mut d = ready();
    assert_eq!(d.after_spends(true, false), DuelStep::Abort { cheater: 2 });
    assert!(!d.is_ready());
    let mut d = ready();
    assert_eq!(d.after_spends(true, true), DuelStep::Flip);
    assert!(d.is_ready());
    assert_eq!(d.wager(), 25);
}

#[test]
fn duel_press_checks_balance_first() {
    let mut d = Duel::new(25, "9");
    assert_eq!(d.press(Some(Side::Attack), p(1), 24), DuelReply::Refuse(DUEL_BROKE));
    assert_eq!(d.press(None, p(1), 25), DuelReply::Ignored);
    assert_eq!(d.press(Some(Side::Attack), p(1), 25), DuelReply::Joined { ready: false });
    assert_eq!(d.press(Some(Side::Defense), p(1), 25), DuelReply::Refuse(SOMEONE_ELSE));
    assert_eq!(d.press(Some(Side::Defense), p(2), 100), DuelReply::Joined { ready: true });
}

#[test]
fn duel_buttons_for_open_sides() {
    let mut d = Duel::new(5, "u");
    let b = d.to_components();
    assert_eq!(b.len(), 2);
    assert_eq!(b[0].custom_id, "u-defense");
    assert_eq!(b[0].label, "bet defense");
    assert_eq!(b[1].custom_id, "u-attack");
    d.try_register_defense(p(1)).unwrap();
    let b = d.to_components();
    assert_eq!(b.len(), 1);
    assert_eq!(b[0].custom_id, "u-attack");
    d.try_register_attack(p(2)).unwrap();
    assert!(d.to_components().is_empty());
}

#[test]
fn duel_embed_and_result() {
    let mut d = Duel::new(30, "u");
    d.try_register_defense(p(3)).unwrap();
    let (title, fields) = d.to_embed("<coin>", "<def>", "<atk>");
    assert_eq!(title, "‼️ 30 <coin> duel ✨");
    assert_eq!(fields[0].name, "defense <def>");
    assert_eq!(fields[0].value, "<@3>");
    assert_eq!(fields[1].name, "<atk> attack");
    assert_eq!(fields[1].value, "open");
    d.try_register_attack(p(4)).unwrap();
    let o = d.settle(true);
    assert_eq!((o.winner, o.loser, o.grant), (3, 4, 60));
    assert_eq!(o.image, "public/catcoin_defense.png");
    let o = d.settle(false);
    assert_eq!((o.winner, o.loser), (4, 3));
    assert_eq!(o.image, "public/catcoin_attack.png");
    let r = d.resolve();
    assert_eq!(r.grant, 60);
    assert!((r.winner, r.loser) == (3, 4) || (r.winner, r.loser) == (4, 3));
    let out = DuelOutcome { winner: 4, loser: 3, image: "x", grant: 60 };
    assert_eq!(result_message(&out, 30, "<coin>"), "<@4> beat <@3> in a duel and stole **+30** <coin>.");
    assert_eq!(duel_cheater_notice(4), "<@4> tried to cheat the duel! aborting.");
}

#[test]
fn draft_alternates_and_keeps_everyone() {
    let members = vec![1, 2, 3, 4, 5];
    let mut d = Draft::new(&members, 2, 4, true);
    assert_eq!(d.remaining(), &vec![1, 3, 5]);
    assert_eq!(d.captain_to_pick(), 2);
    d.pick(5);
    assert_eq!(d.captain_to_pick(), 4);
    d.pick(1);
    d.pick(3);
    assert!(d.is_done());
    let (red, blu) = d.teams();
    assert_eq!(red, &vec![2, 5, 3]);
    assert_eq!(blu, &vec![4, 1]);
}

#[test]
fn draft_texts() {
    assert_eq!(captain_prompt(7, true), "<@7> Pick the RED team captain.");
    assert_eq!(captain_prompt(7, false), "<@7> Pick the BLU team captain.");
    assert_eq!(pick_prompt(9), "<@9> Your pick! :3");
    assert_eq!(retain_without(&vec![1, 2, 1, 3], 1), vec![2, 3]);
    assert_eq!(draft_refusal(&vec![7]), Some(TOO_FEW_FOR_CAPTAINS));
    assert_eq!(draft_refusal(&vec![]), Some("Must be at least 2 people in the VC to be captains!"));
    assert_eq!(draft_refusal(&vec![7, 8]), None);
    let d = Draft::start(&vec![1, 2, 3], 1, 2);
    assert_eq!(d.remaining(), &vec![3]);
    assert_eq!(d.teams(), (&vec![1], &vec![2]));
    assert!(d.captain_to_pick() == 1 || d.captain_to_pick() == 2);
}
