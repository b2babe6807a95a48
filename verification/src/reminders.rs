//! Reminders: a user asks to be pinged after some time, and the bot pings them
//! once that time has come.
use vstd::prelude::*;

use crate::text::{chars_of, decimal, push_decimal, push_signed_decimal, signed_decimal};

verus! {

/// A reminder: the message that asked for it, its author and channel (discord ids
/// as text), and when it is due, in milliseconds since the epoch.
#[derive(Debug, Clone)]
pub struct Reminder {
    pub mid: String,
    pub uid: String,
    pub cid: String,
    pub remind_at: i64,
}

/// A reminder as plain values.
pub struct ReminderView {
    pub mid: Seq<char>,
    pub uid: Seq<char>,
    pub cid: Seq<char>,
    pub remind_at: int,
}

/// The view of a reminder.
pub open spec fn reminder_view(r: Reminder) -> ReminderView {
    ReminderView { mid: r.mid@, uid: r.uid@, cid: r.cid@, remind_at: r.remind_at as int }
}

/// The views of a list of reminders.
pub open spec fn reminder_views(v: Seq<Reminder>) -> Seq<ReminderView> {
    v.map_values(|r: Reminder| reminder_view(r))
}

/// The reminders of a list that are due at `now`, in order.
pub open spec fn due(s: Seq<ReminderView>, now: int) -> Seq<ReminderView>
    decreases s.len(),
{
    if s.len() == 0 {
        seq![]
    } else if s.last().remind_at <= now {
        due(s.drop_last(), now).push(s.last())
    } else {
        due(s.drop_last(), now)
    }
}

/// The reminders of a list that are not due at `now`, in order.
pub open spec fn waiting(s: Seq<ReminderView>, now: int) -> Seq<ReminderView>
    decreases s.len(),
{
    if s.len() == 0 {
        seq![]
    } else if s.last().remind_at <= now {
        waiting(s.drop_last(), now)
    } else {
        waiting(s.drop_last(), now).push(s.last())
    }
}

/// The reminders that have not been sent yet.
pub struct ReminderManager {
    reminders: Vec<Reminder>,
}

impl View for ReminderManager {
    type V = Seq<ReminderView>;

    closed spec fn view(&self) -> Seq<ReminderView> {
        reminder_views(self.reminders@)
    }
}

impl ReminderManager {
    /// A manager holding the given reminders (as loaded from the database).
    pub fn new(reminders: Vec<Reminder>) -> (m: Self)
        ensures
            m@ == reminder_views(reminders@),
    {
        ReminderManager { reminders }
    }

    /// Adds a reminder.
    pub fn insert(&mut self, reminder: Reminder)
        ensures
            final(self)@ == old(self)@.push(reminder_view(reminder)),
    {
        self.reminders.push(reminder);
        assert(self@ =~= old(self)@.push(reminder_view(reminder)));
    }

    /// Removes the reminders that are due at `now` and gives them back, in the order
    /// in which they were added; the others stay, in order.
    pub fn pop_ready(&mut self, now: i64) -> (r: Vec<Reminder>)
        ensures
            reminder_views(r@) == due(old(self)@, now as int),
            final(self)@ == waiting(old(self)@, now as int),
    {
        let ghost s = self@;
        let mut all: Vec<Reminder> = Vec::new();
        std::mem::swap(&mut all, &mut self.reminders);
        let mut ready: Vec<Reminder> = Vec::new();
        let mut keep: Vec<Reminder> = Vec::new();
        let mut i: usize = 0;
        while i < all.len()
            invariant
                i <= all@.len(),
                s == reminder_views(all@),
                reminder_views(ready@) == due(s.take(i as int), now as int),
                reminder_views(keep@) == waiting(s.take(i as int), now as int),
            decreases all@.len() - i,
        {
            let r = Reminder {
                mid: all[i].mid.clone(),
                uid: all[i].uid.clone(),
                cid: all[i].cid.clone(),
                remind_at: all[i].remind_at,
            };
            assert(s.take(i + 1).drop_last() =~= s.take(i as int));
            assert(s[i as int] == reminder_view(all@[i as int]));
            if r.remind_at <= now {
                ready.push(r);
                assert(reminder_views(ready@) =~= due(s.take(i + 1), now as int));
                assert(reminder_views(keep@) =~= waiting(s.take(i + 1), now as int));
            } else {
                keep.push(r);
                assert(reminder_views(ready@) =~= due(s.take(i + 1), now as int));
                assert(reminder_views(keep@) =~= waiting(s.take(i + 1), now as int));
            }
            i = i + 1;
        }
        assert(s.take(all@.len() as int) =~= s);
        self.reminders = keep;
        ready
    }
}

/// Every reminder is due or waiting, never both: the two lists together hold each
/// reminder once.
pub proof fn law_due_and_waiting_split(s: Seq<ReminderView>, now: int)
    ensures
        due(s, now).len() + waiting(s, now).len() == s.len(),
        (due(s, now) + waiting(s, now)).to_multiset() == s.to_multiset(),
        forall|i: int| 0 <= i < due(s, now).len() ==> #[trigger] due(s, now)[i].remind_at <= now,
        forall|i: int| 0 <= i < waiting(s, now).len() ==> #[trigger] waiting(s, now)[i].remind_at > now,
    decreases s.len(),
{
    if s.len() > 0 {
        let t = s.drop_last();
        law_due_and_waiting_split(t, now);
        let x = s.last();
        assert(s =~= t.push(x));
        let d = due(t, now);
        let w = waiting(t, now);
        t.to_multiset_ensures();
        d.to_multiset_ensures();
        w.to_multiset_ensures();
        vstd::seq_lib::lemma_multiset_commutative(d, w);
        if x.remind_at <= now {
            vstd::seq_lib::lemma_multiset_commutative(d.push(x), w);
            assert((d.push(x) + w).to_multiset() =~= (d + w).to_multiset().insert(x));
        } else {
            vstd::seq_lib::lemma_multiset_commutative(d, w.push(x));
            assert((d + w.push(x)).to_multiset() =~= (d + w).to_multiset().insert(x));
        }
    } else {
        assert(due(s, now) + waiting(s, now) =~= s);
    }
}

/// Why a reminder could not be set.
pub enum ReminderError {
    /// The time could not be read.
    Duration(humantime::DurationError),
    /// The time is too far away.
    OutOfRange,
    /// The time's numbers are too large to be read safely (see
    /// [`MAX_WAIT_WEIGHT`]).
    TooLarge,
}

/// Whether a character ends a number in a duration: a letter of a unit, or the
/// decimal point.
pub open spec fn ends_number(c: char) -> bool {
    ('a' <= c && c <= 'z') || ('A' <= c && c <= 'Z') || c == 'µ' || c == '.'
}

/// Ten to the power `n`.
pub open spec fn pow10(n: nat) -> nat
    decreases n,
{
    if n == 0 {
        1
    } else {
        10 * pow10((n - 1) as nat)
    }
}

/// The significant digits (from the first digit other than `0`) of a stretch of
/// characters that ends no number, after one more character `c`.
pub open spec fn next_sig(cur: Option<nat>, c: char) -> nat {
    let k = match cur {
        Some(k) => k,
        None => 0,
    };
    if '0' <= c && c <= '9' && (k > 0 || c != '0') {
        k + 1
    } else {
        k
    }
}

/// The weight of a stretch with `k` significant digits: `10^k`, above any number
/// written with those digits.
pub open spec fn stretch_weight(cur: Option<nat>) -> nat {
    match cur {
        Some(k) => pow10(k),
        None => 0,
    }
}

/// Reading a text from the left: the weights of the finished stretches, and the
/// significant digits of the open one.
pub open spec fn weigh(s: Seq<char>) -> (nat, Option<nat>)
    decreases s.len(),
{
    if s.len() == 0 {
        (0, None)
    } else {
        let prev = weigh(s.drop_last());
        let c = s.last();
        if ends_number(c) {
            (prev.0 + stretch_weight(prev.1), None)
        } else {
            (prev.0, Some(next_sig(prev.1, c)))
        }
    }
}

/// The weight of a text: over the stretches between unit letters and decimal
/// points, the sum of `10^k` for a stretch with `k` significant digits.
pub open spec fn number_weight(s: Seq<char>) -> nat {
    weigh(s).0 + stretch_weight(weigh(s).1)
}

/// The largest weight of a reminder's time. Each number or fraction that
/// `humantime` reads lies in one stretch, so every number is below that stretch's
/// weight and there are at most as many numbers as the weight; a number of years is
/// 31,557,600 seconds each, a fraction adds less than one unit, and nanoseconds add
/// less than the number itself. So a text of weight at most `10^11` sums to less
/// than about 6.4e18 seconds, far below `u64::MAX`, and `humantime`'s carry of a
/// whole second of nanoseconds into the seconds cannot overflow.
pub const MAX_WAIT_WEIGHT: u64 = 100_000_000_000;

proof fn lemma_pow10_grows(a: nat, b: nat)
    requires
        a <= b,
    ensures
        1 <= pow10(a) <= pow10(b),
    decreases b,
{
    if b > 0 {
        if a == b {
            lemma_pow10_grows(0, (b - 1) as nat);
        } else {
            lemma_pow10_grows(a, (b - 1) as nat);
        }
    }
}

proof fn lemma_weight_grows(s: Seq<char>, c: char)
    ensures
        number_weight(s) <= number_weight(s.push(c)),
{
    assert(s.push(c).drop_last() =~= s);
    let prev = weigh(s);
    if !ends_number(c) {
        match prev.1 {
            Some(k) => lemma_pow10_grows(k, next_sig(prev.1, c)),
            None => lemma_pow10_grows(0, next_sig(prev.1, c)),
        }
    }
}

proof fn lemma_weight_prefix(s: Seq<char>, i: int)
    requires
        0 <= i <= s.len(),
    ensures
        number_weight(s.take(i)) <= number_weight(s),
    decreases s.len() - i,
{
    if i < s.len() {
        assert(s.take(i + 1) =~= s.take(i).push(s[i]));
        lemma_weight_grows(s.take(i), s[i]);
        lemma_weight_prefix(s, i + 1);
    } else {
        assert(s.take(i) =~= s);
    }
}

/// `10^k`.
fn pow10_u64(k: u64) -> (r: u64)
    requires
        k <= 11,
    ensures
        r == pow10(k as nat),
{
    proof {
        reveal_with_fuel(pow10, 12);
    }
    let mut r: u64 = 1;
    let mut j: u64 = 0;
    while j < k
        invariant
            j <= k <= 11,
            r == pow10(j as nat),
        decreases k - j,
    {
        proof {
            reveal_with_fuel(pow10, 12);
            lemma_pow10_grows(j as nat + 1, 11);
            assert(pow10(11) == 100_000_000_000);
        }
        r = r * 10;
        j = j + 1;
    }
    r
}

/// Whether a reminder's time is small enough to be read (see [`MAX_WAIT_WEIGHT`]).
pub fn fits_wait_weight(text: &str) -> (b: bool)
    ensures
        b == (number_weight(text@) <= MAX_WAIT_WEIGHT),
{
    let cs = chars_of(text);
    let mut total: u64 = 0;
    let mut active = false;
    let mut k: u64 = 0;
    let mut i: usize = 0;
    proof {
        reveal_with_fuel(pow10, 13);
    }
    while i < cs.len()
        invariant
            i <= cs@.len(),
            cs@ == text@,
            k <= 11,
            weigh(cs@.take(i as int)) == (total as nat, if active {
                Some(k as nat)
            } else {
                None::<nat>
            }),
            number_weight(cs@.take(i as int)) <= MAX_WAIT_WEIGHT,
            pow10(12) == 1_000_000_000_000,
        decreases cs@.len() - i,
    {
        let c = cs[i];
        assert(cs@.take(i + 1).drop_last() =~= cs@.take(i as int));
        if ('a' <= c && c <= 'z') || ('A' <= c && c <= 'Z') || c == 'µ' || c == '.' {
            if active {
                let p = pow10_u64(k);
                total = total + p;
            }
            active = false;
        } else {
            let prev: u64 = if active {
                k
            } else {
                0
            };
            let nk: u64 = if '0' <= c && c <= '9' && (prev > 0 || c != '0') {
                prev + 1
            } else {
                prev
            };
            if nk > 11 {
                proof {
                    lemma_pow10_grows(12, nk as nat);
                    lemma_weight_prefix(cs@, i + 1);
                }
                return false;
            }
            let p = pow10_u64(nk);
            if p > MAX_WAIT_WEIGHT - total {
                proof {
                    lemma_weight_prefix(cs@, i + 1);
                }
                return false;
            }
            active = true;
            k = nk;
        }
        i = i + 1;
    }
    assert(cs@.take(i as int) =~= cs@);
    true
}

/// What `humantime::parse_duration` reads from a text, as whole seconds and the
/// nanoseconds beyond them.
pub uninterp spec fn human_duration(text: Seq<char>) -> Option<(u64, u32)>;

#[verifier::external_type_specification]
#[verifier::external_body]
pub struct ExDurationError(humantime::DurationError);

/// Calls `humantime::parse_duration` (durations such as `6d 3h`) and splits the
/// duration into whole seconds and nanoseconds, which are below one billion. The
/// text's weight is at most [`MAX_WAIT_WEIGHT`]: `parse_duration` panics when the
/// seconds it has added up reach `u64::MAX` just as the nanoseconds reach one whole
/// second (`Duration::new` then overflows), and that bound keeps the seconds far
/// below that.
#[verifier::external_body]
fn parse_wait(text: &str) -> (r: Result<(u64, u32), humantime::DurationError>)
    requires
        number_weight(text@) <= MAX_WAIT_WEIGHT,
    ensures
        r is Ok <==> human_duration(text@) is Some,
        r matches Ok(d) ==> human_duration(text@) == Some(d) && d.1 < 1_000_000_000,
{
    match humantime::parse_duration(text) {
        Ok(d) => Ok((d.as_secs(), d.subsec_nanos())),
        Err(e) => Err(e),
    }
}

/// The time `secs` seconds and `nanos` nanoseconds after `now` (milliseconds),
/// in whole milliseconds.
pub open spec fn later(now: int, secs: int, nanos: int) -> int {
    now + secs * 1000 + nanos / 1_000_000
}

/// When a reminder asked for at `now` (milliseconds) with the text `when` is due.
pub fn remind_at(now: i64, when: &str) -> (r: Result<i64, ReminderError>)
    ensures
        number_weight(when@) > MAX_WAIT_WEIGHT ==> r matches Err(ReminderError::TooLarge),
        number_weight(when@) <= MAX_WAIT_WEIGHT && human_duration(when@) is None ==> r matches Err(
            ReminderError::Duration(_),
        ),
        number_weight(when@) <= MAX_WAIT_WEIGHT ==> (human_duration(when@) matches Some(d) ==> {
            let t = later(now as int, d.0 as int, d.1 as int);
            &&& i64::MIN <= t <= i64::MAX ==> r == Ok::<i64, ReminderError>(t as i64)
            &&& !(i64::MIN <= t <= i64::MAX) ==> r matches Err(ReminderError::OutOfRange)
        }),
{
    if !fits_wait_weight(when) {
        return Err(ReminderError::TooLarge);
    }
    match parse_wait(when) {
        Err(e) => Err(ReminderError::Duration(e)),
        Ok((secs, nanos)) => {
            let ms = (now as i128) + (secs as i128) * 1000 + (nanos as i128) / 1_000_000;
            if ms < i64::MIN as i128 || ms > i64::MAX as i128 {
                Err(ReminderError::OutOfRange)
            } else {
                Ok(ms as i64)
            }
        },
    }
}

/// Whole seconds of a time in milliseconds (rounded down).
pub open spec fn seconds_of_ms(ms: int) -> int {
    ms / 1000
}

/// The answer to a reminder asked for with the slash command.
pub fn confirmation(remind_at: i64) -> (s: String)
    ensures
        s@ == "I will ping you on: <t:"@ + signed_decimal(seconds_of_ms(remind_at as int)) + ":f>"@,
{
    let secs: i64 = if remind_at >= 0 {
        remind_at / 1000
    } else {
        -((-(remind_at as i128) + 999) / 1000) as i64
    };
    assert(secs == seconds_of_ms(remind_at as int)) by (nonlinear_arith)
        requires
            remind_at >= 0 ==> secs == remind_at / 1000,
            remind_at < 0 ==> secs == -((-(remind_at as int) + 999) / 1000),
    ;
    let mut s = String::from_str("I will ping you on: <t:");
    push_signed_decimal(&mut s, secs);
    s.append(":f>");
    s
}

/// The ping sent when a reminder is due.
pub fn reminder_message(r: &Reminder, guild_id: u64) -> (s: String)
    ensures
        s@ == "<@"@ + r.uid@ + "> Meow!!! Your reminder is up. https://discord.com/channels/"@
            + decimal(guild_id as nat) + "/"@ + r.cid@ + "/"@ + r.mid@,
{
    let mut s = String::from_str("<@");
    s.append(r.uid.as_str());
    s.append("> Meow!!! Your reminder is up. https://discord.com/channels/");
    push_decimal(&mut s, guild_id);
    s.append("/");
    s.append(r.cid.as_str());
    s.append("/");
    s.append(r.mid.as_str());
    s
}

} // verus!
