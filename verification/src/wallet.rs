//! What the bot answers when catcoin changes hands: payments, drops, spills and the
//! balance and top lists.
use vstd::prelude::*;

use crate::rng::pick_below;
use crate::text::{
    decimal, push_decimal, push_signed_decimal, signed_decimal, starts_with, skip_chars,
};

verus! {

/// How discord writes a mention of a user.
pub open spec fn at(id: u64) -> Seq<char> {
    "<@"@ + decimal(id as nat) + ">"@
}

/// Appends a mention of a user.
pub fn push_mention(s: &mut String, id: u64)
    ensures
        final(s)@ == old(s)@ + at(id),
{
    let ghost start = s@;
    s.append("<@");
    push_decimal(s, id);
    s.append(">");
    assert(s@ =~= start + at(id));
}

/// `s` with every occurrence of `pat` replaced by `rep`, scanning from the left
/// without overlaps, as `str::replace` does.
pub open spec fn replaced(s: Seq<char>, pat: Seq<char>, rep: Seq<char>) -> Seq<char>
    recommends
        pat.len() > 0,
    decreases s.len(),
{
    if s.len() == 0 || pat.len() == 0 {
        s
    } else if s.len() >= pat.len() && s.take(pat.len() as int) == pat {
        rep + replaced(s.skip(pat.len() as int), pat, rep)
    } else {
        seq![s[0]] + replaced(s.skip(1), pat, rep)
    }
}

/// Replaces every occurrence of a non-empty pattern (see [`replaced`]).
pub fn replace_all(s: &str, pat: &str, rep: &str) -> (r: String)
    requires
        pat@.len() > 0,
    ensures
        r@ == replaced(s@, pat@, rep@),
{
    let n = s.unicode_len();
    let mut out = String::new();
    let mut i: usize = 0;
    let ghost full = s@;
    assert(full.skip(0) =~= full);
    assert(out@ + replaced(full, pat@, rep@) =~= replaced(full, pat@, rep@));
    while i < n
        invariant
            i <= n == full.len(),
            full == s@,
            pat@.len() > 0,
            out@ + replaced(full.skip(i as int), pat@, rep@) == replaced(full, pat@, rep@),
        decreases n - i,
    {
        let rest = skip_chars(s, i);
        if starts_with(rest, pat) {
            assert(full.skip(i as int).skip(pat@.len() as int) =~= full.skip(i + pat@.len()));
            out.append(rep);
            assert(out@ + replaced(full.skip(i + pat@.len()), pat@, rep@) =~= replaced(full, pat@, rep@)) by {
                assert(out@ =~= (out@.take(out@.len() - rep@.len())) + rep@);
            }
            i = i + pat.unicode_len();
        } else {
            let c = s.get_char(i);
            assert(full.skip(i as int).skip(1) =~= full.skip(i + 1));
            assert(full.skip(i as int)[0] == c);
            crate::text::push_char(&mut out, c);
            assert(out@ + replaced(full.skip(i + 1), pat@, rep@) =~= replaced(full, pat@, rep@)) by {
                assert(out@ =~= out@.drop_last().push(c));
            }
            i = i + 1;
        }
    }
    assert(full.skip(n as int) =~= Seq::<char>::empty());
    assert(out@ =~= replaced(full, pat@, rep@));
    out
}

/// The messages of a user who trips and spills catcoin: `%u` stands for the user,
/// `%c` for the amount and `%e` for the catcoin emoji.
pub const TRIP_MESSAGES: [&'static str; 6] = [
    "meow!! >w< %u tripped and lost **%c** %e",
    "total noob fail!!!! %u fell over and dropped **%c** %e",
    "a kitty girl ripped a hole in %u's pocket.",
    "*kicks %u in the tummy really hard, spilling **%c** %e*",
    "*punches %u in the gut, spilling **%c** %e*",
    "%u slips on a banana peel, dropping **%c** %e",
];

/// A trip message with the user, amount and emoji filled in.
pub open spec fn trip_text(template: Seq<char>, user: u64, amount: u64, coin: Seq<char>) -> Seq<char> {
    replaced(
        replaced(replaced(template, "%u"@, at(user)), "%c"@, decimal(amount as nat)),
        "%e"@,
        coin,
    )
}

/// Fills in a trip message (see [`trip_text`]).
pub fn fill_trip_message(template: &str, user: u64, amount: u64, coin: &str) -> (s: String)
    ensures
        s@ == trip_text(template@, user, amount, coin@),
{
    proof {
        reveal_strlit("%u");
        reveal_strlit("%c");
        reveal_strlit("%e");
    }
    let mut m = String::new();
    push_mention(&mut m, user);
    let a = replace_all(template, "%u", m.as_str());
    let mut n = String::new();
    push_decimal(&mut n, amount);
    let b = replace_all(a.as_str(), "%c", n.as_str());
    replace_all(b.as_str(), "%e", coin)
}

/// One of the trip messages, picked at random, filled in.
pub fn random_trip_msg(user: u64, amount: u64, coin: &str) -> (s: String)
    ensures
        exists|i: int| 0 <= i < 6 && s@ == trip_text(TRIP_MESSAGES[i]@, user, amount, coin@),
{
    let i = pick_below(6);
    let s = fill_trip_message(TRIP_MESSAGES[i], user, amount, coin);
    assert(s@ == trip_text(TRIP_MESSAGES[i as int]@, user, amount, coin@));
    s
}

/// The answer when someone picks up spilled catcoin: its owner gets it back, anyone
/// else steals it.
pub fn spill_claim_text(picker: u64, owner: u64, amount: u64, coin: &str) -> (s: String)
    ensures
        picker == owner ==> s@ == at(picker) + " picked their own **"@ + decimal(amount as nat) + "** "@
            + coin@ + " back up. ^-^"@,
        picker != owner ==> s@ == at(picker) + " stole "@ + at(owner) + "'s **"@ + decimal(
            amount as nat,
        ) + "** "@ + coin@ + " off the ground! >//<"@,
{
    let mut s = String::new();
    push_mention(&mut s, picker);
    if picker == owner {
        s.append(" picked their own **");
        push_decimal(&mut s, amount);
        s.append("** ");
        s.append(coin);
        s.append(" back up. ^-^");
    } else {
        s.append(" stole ");
        push_mention(&mut s, owner);
        s.append("'s **");
        push_decimal(&mut s, amount);
        s.append("** ");
        s.append(coin);
        s.append(" off the ground! >//<");
    }
    s
}

/// Why a payment is refused before any catcoin moves.
pub fn pay_refusal(from: u64, to: u64, amount: u64, coin: &str) -> (r: Option<String>)
    ensures
        to == from ==> (r matches Some(m) && m@ == "Cannot send yourself catcoin!"@),
        to != from && amount == 0 ==> (r matches Some(m) && m@ == "Cannot send **0** "@ + coin@),
        to != from && amount != 0 ==> r is None,
{
    if to == from {
        Some(String::from_str("Cannot send yourself catcoin!"))
    } else if amount == 0 {
        let mut m = String::from_str("Cannot send **0** ");
        m.append(coin);
        Some(m)
    } else {
        None
    }
}

/// The answer to a payment that was made (`sent`) or not for want of catcoin, and
/// whether only the payer sees it.
pub fn pay_reply(sent: bool, to: u64, amount: u64, coin: &str) -> (r: (String, bool))
    ensures
        sent ==> r.0@ == "Sent **"@ + decimal(amount as nat) + "** "@ + coin@ + " to "@ + at(to) + "."@
            && !r.1,
        !sent ==> r.0@ == "You do not have enough catcoin "@ + coin@ + "."@ && r.1,
{
    if sent {
        let mut m = String::from_str("Sent **");
        push_decimal(&mut m, amount);
        m.append("** ");
        m.append(coin);
        m.append(" to ");
        push_mention(&mut m, to);
        m.append(".");
        (m, false)
    } else {
        let mut m = String::from_str("You do not have enough catcoin ");
        m.append(coin);
        m.append(".");
        (m, true)
    }
}

/// The answer to a balance check.
pub fn balance_text(coin: &str, catcoin: i64) -> (s: String)
    ensures
        s@ == coin@ + " You have "@ + signed_decimal(catcoin as int) + " catcoin."@,
{
    let mut s = coin.to_owned();
    s.append(" You have ");
    push_signed_decimal(&mut s, catcoin);
    s.append(" catcoin.");
    s
}

/// Line `i` (from zero) of the top list.
pub open spec fn top_line(i: nat, name: Seq<char>, catcoin: int, coin: Seq<char>) -> Seq<char> {
    "**"@ + decimal(i + 1) + "**. **"@ + name + "** - "@ + signed_decimal(catcoin) + " "@ + coin
}

/// The top list: one line for each of the first ten holders.
pub open spec fn top_text(holders: Seq<(Seq<char>, int)>, coin: Seq<char>) -> Seq<char>
    decreases holders.len(),
{
    if holders.len() == 0 {
        seq![]
    } else if holders.len() == 1 {
        top_line(0, holders[0].0, holders[0].1, coin)
    } else {
        top_text(holders.drop_last(), coin) + "\n"@ + top_line(
            (holders.len() - 1) as nat,
            holders.last().0,
            holders.last().1,
            coin,
        )
    }
}

/// Writes the top list of the first ten holders (name and catcoin), in order.
pub fn top_list(holders: &Vec<(String, i64)>, coin: &str) -> (s: String)
    ensures
        s@ == top_text(
            holders@.map_values(|h: (String, i64)| (h.0@, h.1 as int)).take(
                if holders@.len() < 10 {
                    holders@.len() as int
                } else {
                    10
                },
            ),
            coin@,
        ),
{
    let ghost hv = holders@.map_values(|h: (String, i64)| (h.0@, h.1 as int));
    let n = if holders.len() < 10 {
        holders.len()
    } else {
        10
    };
    let mut s = String::new();
    let mut i: usize = 0;
    while i < n
        invariant
            i <= n <= 10,
            n <= holders@.len(),
            hv == holders@.map_values(|h: (String, i64)| (h.0@, h.1 as int)),
            s@ == top_text(hv.take(i as int), coin@),
        decreases n - i,
    {
        assert(hv.take(i + 1).drop_last() =~= hv.take(i as int));
        let mut line = String::from_str("**");
        push_decimal(&mut line, i as u64 + 1);
        line.append("**. **");
        line.append(holders[i].0.as_str());
        line.append("** - ");
        push_signed_decimal(&mut line, holders[i].1);
        line.append(" ");
        line.append(coin);
        assert(line@ =~= top_line(i as nat, hv[i as int].0, hv[i as int].1, coin@));
        if i > 0 {
            s.append("\n");
        }
        s.append(line.as_str());
        i = i + 1;
        proof {
            reveal_strlit("");
        }
        assert(s@ =~= top_text(hv.take(i as int), coin@));
    }
    s
}

/// The answer when a drop of zero catcoin is asked for.
pub fn drop_zero_text(coin: &str) -> (s: String)
    ensures
        s@ == "Cannot drop **0** "@ + coin@,
{
    let mut s = String::from_str("Cannot drop **0** ");
    s.append(coin);
    s
}

/// The answer when the dropper does not have the amount.
pub fn drop_poor_text(amount: u64, coin: &str) -> (s: String)
    ensures
        s@ == "You do not have **"@ + decimal(amount as nat) + "** "@ + coin@,
{
    let mut s = String::from_str("You do not have **");
    push_decimal(&mut s, amount);
    s.append("** ");
    s.append(coin);
    s
}

/// The title of a drop: the dropper's message, or a default one.
pub fn drop_title(message: Option<String>, dropper_name: &str, amount: u64, coin: &str) -> (s: String)
    ensures
        match message {
            Some(m) => s@ == m@,
            None => s@ == dropper_name@ + " dropped **"@ + decimal(amount as nat) + "** "@ + coin@
                + " on the ground!"@,
        },
{
    match message {
        Some(m) => m,
        None => {
            let mut s = dropper_name.to_owned();
            s.append(" dropped **");
            push_decimal(&mut s, amount);
            s.append("** ");
            s.append(coin);
            s.append(" on the ground!");
            s
        },
    }
}

/// The answer when someone tries to pick up a drop: the dropper cannot (`Err`),
/// anyone else gets it.
pub fn drop_claim_text(picker: u64, dropper: u64, amount: u64, coin: &str) -> (r: Result<String, &'static str>)
    ensures
        picker == dropper ==> r == Err::<String, &'static str>("Cannot claim your own catcoin drop!"),
        picker != dropper ==> (r matches Ok(s) && s@ == at(picker) + " picked up "@ + at(dropper)
            + "'s **"@ + decimal(amount as nat) + "** "@ + coin@ + "."@),
{
    if picker == dropper {
        return Err("Cannot claim your own catcoin drop!");
    }
    let mut s = String::new();
    push_mention(&mut s, picker);
    s.append(" picked up ");
    push_mention(&mut s, dropper);
    s.append("'s **");
    push_decimal(&mut s, amount);
    s.append("** ");
    s.append(coin);
    s.append(".");
    Ok(s)
}

/// The notice when nobody picked up a drop in time.
pub fn drop_expired_text(dropper: u64, amount: u64, coin: &str) -> (s: String)
    ensures
        s@ == at(dropper) + " Your drop has expired. Refunding **"@ + decimal(amount as nat) + "** "@
            + coin@,
{
    let mut s = String::new();
    push_mention(&mut s, dropper);
    s.append(" Your drop has expired. Refunding **");
    push_decimal(&mut s, amount);
    s.append("** ");
    s.append(coin);
    s
}

/// A user's catcoin wallet, as the database keeps it: the user id as text and the
/// balance.
pub struct CatcoinWallet {
    pub uid: String,
    pub catcoin: i64,
}

/// The wallet of user `uid`: the stored one, or an empty one when there is none.
pub fn wallet_or_empty(uid: u64, stored: Option<CatcoinWallet>) -> (w: CatcoinWallet)
    ensures
        match stored {
            Some(s) => w == s,
            None => w.uid@ == decimal(uid as nat) && w.catcoin == 0,
        },
{
    match stored {
        Some(s) => s,
        None => {
            let mut id = String::new();
            push_decimal(&mut id, uid);
            proof {
                reveal_strlit("");
            }
            assert(id@ =~= decimal(uid as nat));
            CatcoinWallet { uid: id, catcoin: 0 }
        },
    }
}

} // verus!
