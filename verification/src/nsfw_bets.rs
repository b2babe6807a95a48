//! Bets on how long a new member takes to give themselves the nsfw role.
use vstd::prelude::*;

use crate::patterns::{clock_guess_captures, find_clock_guess};
use crate::text::{
    all_digits, char_from_u32, chars_of, decimal, digit_value, digits_value, hhmmss, hhmmss_text, parse_u64,
    parse_unsigned, push_decimal,
};

verus! {

/// The nanoseconds in an hour: the role must come within this time of joining.
pub const HOUR_NANOS: u64 = 3_600_000_000_000;

/// The largest pool whose share is computed exactly (see [`ceil_div`]).
pub const MAX_EXACT_POOL: u64 = 4_503_599_627_370_496;

/// Why a bet was not taken.
#[derive(Debug, Clone, Copy, PartialEq, Eq, Structural)]
pub enum BetError {
    /// The member bet on themselves.
    NotYou,
    /// There is no pool for the member any more.
    NoPool,
    /// The button belongs to an older message.
    Outdated,
    /// The bettor cannot pay the wager.
    Broke,
    /// The guess is neither `never` nor `MM:SS`.
    BadFormat,
    /// The guess has the shape `MM:SS` but its digits are no ASCII number.
    Unreadable,
    /// The bettor has bet on this member already.
    AlreadyBet,
}

impl BetError {
    /// The answer shown to the bettor.
    pub fn message(&self) -> (s: &'static str)
        ensures
            s@ == self.text(),
    {
        match self {
            BetError::NotYou => "Not you!",
            BetError::NoPool => "Betting pool no longer exists.",
            BetError::Outdated => "This betting button is outdated.",
            BetError::Broke => "You are way too broke to bet on this user.",
            BetError::BadFormat => "Invalid time format. Try again :3. Example: 12:34",
            BetError::Unreadable => "invalid digit found in string",
            BetError::AlreadyBet => "You have already bet.",
        }
    }

    /// The answer shown to the bettor.
    pub open spec fn text(self) -> Seq<char> {
        match self {
            BetError::NotYou => "Not you!"@,
            BetError::NoPool => "Betting pool no longer exists."@,
            BetError::Outdated => "This betting button is outdated."@,
            BetError::Broke => "You are way too broke to bet on this user."@,
            BetError::BadFormat => "Invalid time format. Try again :3. Example: 12:34"@,
            BetError::Unreadable => "invalid digit found in string"@,
            BetError::AlreadyBet => "You have already bet."@,
        }
    }
}

/// The bets on one member, as plain values: each bettor with their guess in seconds
/// (`None` for "never"), in the order the bets came in.
pub struct BetView {
    pub bets: Seq<(u64, Option<u64>)>,
    pub uid: u64,
    pub wager: u64,
    pub message_id: u64,
    pub channel_id: u64,
}

/// The bets on one member.
pub struct NSFWBet {
    bets: Vec<(u64, Option<u64>)>,
    uid: u64,
    wager: u64,
    message_id: u64,
    channel_id: u64,
}

/// Whether `user` has a bet among `s`.
pub open spec fn has_bettor(s: Seq<(u64, Option<u64>)>, user: u64) -> bool {
    exists|i: int| 0 <= i < s.len() && #[trigger] s[i].0 == user
}

/// No bettor occurs twice.
pub open spec fn bettors_unique(s: Seq<(u64, Option<u64>)>) -> bool {
    forall|i: int, j: int| 0 <= i < j < s.len() ==> #[trigger] s[i].0 != #[trigger] s[j].0
}

/// The bettors of a list of bets, in order.
pub open spec fn bettors(s: Seq<(u64, Option<u64>)>) -> Seq<u64> {
    s.map_values(|b: (u64, Option<u64>)| b.0)
}

/// The bettors who guessed "never", in order.
pub open spec fn never_bettors(s: Seq<(u64, Option<u64>)>) -> Seq<u64>
    decreases s.len(),
{
    if s.len() == 0 {
        seq![]
    } else if s.last().1 is None {
        never_bettors(s.drop_last()).push(s.last().0)
    } else {
        never_bettors(s.drop_last())
    }
}

/// How far a guess is from the actual time.
pub open spec fn distance(actual: int, guess: int) -> int {
    if actual >= guess {
        actual - guess
    } else {
        guess - actual
    }
}

/// The position of the first bet, among the first `n`, whose guess is closest to
/// `actual`; `None` when none of them guessed a time.
pub open spec fn closest_among(s: Seq<(u64, Option<u64>)>, actual: int, n: int) -> Option<int>
    decreases n,
{
    if n <= 0 {
        None
    } else {
        let prev = closest_among(s, actual, n - 1);
        match s[n - 1].1 {
            None => prev,
            Some(g) => match prev {
                None => Some(n - 1),
                Some(p) => if distance(actual, g as int) < distance(actual, s[p].1->0 as int) {
                    Some(n - 1)
                } else {
                    prev
                },
            },
        }
    }
}

/// The bet closest to `actual`: the first, in bet order, at the smallest distance.
pub open spec fn winner_of(s: Seq<(u64, Option<u64>)>, actual: int) -> Option<(u64, u64)> {
    match closest_among(s, actual, s.len() as int) {
        Some(i) => Some((s[i].0, s[i].1->0)),
        None => None,
    }
}

/// Every guess is below ten thousand seconds (`MM:SS` allows at most 99:99).
pub open spec fn guesses_small(s: Seq<(u64, Option<u64>)>) -> bool {
    forall|i: int| 0 <= i < s.len() && (#[trigger] s[i]).1 is Some ==> s[i].1->0 < 10000
}

impl View for NSFWBet {
    type V = BetView;

    closed spec fn view(&self) -> BetView {
        BetView {
            bets: self.bets@,
            uid: self.uid,
            wager: self.wager,
            message_id: self.message_id,
            channel_id: self.channel_id,
        }
    }
}

impl NSFWBet {
    /// No bettor occurs twice, and every guess is a time of at most 99:99.
    pub open spec fn wf(&self) -> bool {
        bettors_unique(self@.bets) && guesses_small(self@.bets)
    }

    /// A pool with no bets yet.
    pub fn new(uid: u64, wager: u64, message_id: u64, channel_id: u64) -> (b: Self)
        ensures
            b.wf(),
            b@ == (BetView { bets: seq![], uid, wager, message_id, channel_id }),
    {
        NSFWBet { bets: Vec::new(), uid, wager, message_id, channel_id }
    }

    /// The member bet on.
    pub fn uid(&self) -> (u: u64)
        ensures
            u == self@.uid,
    {
        self.uid
    }

    /// The wager of each bet.
    pub fn wager(&self) -> (w: u64)
        ensures
            w == self@.wager,
    {
        self.wager
    }

    /// The message with the bet button.
    pub fn message_id(&self) -> (m: u64)
        ensures
            m == self@.message_id,
    {
        self.message_id
    }

    /// The channel of the message with the bet button.
    pub fn channel_id(&self) -> (c: u64)
        ensures
            c == self@.channel_id,
    {
        self.channel_id
    }

    /// The number of bets.
    pub fn bet_count(&self) -> (n: usize)
        ensures
            n == self@.bets.len(),
    {
        self.bets.len()
    }

    /// Whether `user` has bet already.
    pub fn has_bet_already(&self, user: u64) -> (b: bool)
        ensures
            b == has_bettor(self@.bets, user),
    {
        let mut i: usize = 0;
        while i < self.bets.len()
            invariant
                i <= self.bets@.len(),
                forall|j: int| 0 <= j < i ==> self.bets@[j].0 != user,
            decreases self.bets@.len() - i,
        {
            if self.bets[i].0 == user {
                assert(self.bets@[i as int].0 == user);
                return true;
            }
            i = i + 1;
        }
        false
    }

    /// Records the bet of a user who has not bet yet.
    pub fn add_bet(&mut self, user: u64, seconds: Option<u64>)
        requires
            old(self).wf(),
            !has_bettor(old(self)@.bets, user),
            seconds matches Some(g) ==> g < 10000,
        ensures
            final(self).wf(),
            final(self)@ == (BetView { bets: old(self)@.bets.push((user, seconds)), ..old(self)@ }),
    {
        self.bets.push((user, seconds));
        assert forall|i: int, j: int| 0 <= i < j < self@.bets.len() implies #[trigger] self@.bets[i].0
            != #[trigger] self@.bets[j].0 by {
            if j == self@.bets.len() - 1 {
                assert(old(self)@.bets[i].0 == self@.bets[i].0);
            } else {
                assert(old(self)@.bets[i].0 != old(self)@.bets[j].0);
            }
        }
    }

    /// The users who guessed "never", in bet order.
    pub fn get_never_bets(&self) -> (v: Vec<u64>)
        ensures
            v@ == never_bettors(self@.bets),
    {
        let mut v: Vec<u64> = Vec::new();
        let mut i: usize = 0;
        while i < self.bets.len()
            invariant
                i <= self.bets@.len(),
                v@ == never_bettors(self.bets@.take(i as int)),
            decreases self.bets@.len() - i,
        {
            assert(self.bets@.take(i + 1).drop_last() =~= self.bets@.take(i as int));
            if self.bets[i].1.is_none() {
                v.push(self.bets[i].0);
            }
            i = i + 1;
        }
        assert(self.bets@.take(self.bets@.len() as int) =~= self.bets@);
        v
    }

    /// The bet whose guess is closest to `actual_seconds` (see [`winner_of`]), with
    /// its guess; `None` when nobody guessed a time.
    pub fn get_winner(&self, actual_seconds: u64) -> (r: Option<(u64, u64)>)
        requires
            self.wf(),
            actual_seconds <= i64::MAX,
        ensures
            r == winner_of(self@.bets, actual_seconds as int),
    {
        let ghost s = self.bets@;
        let mut best: Option<usize> = None;
        let mut best_dist: u64 = 0;
        let mut i: usize = 0;
        while i < self.bets.len()
            invariant
                i <= s.len(),
                s == self.bets@,
                guesses_small(s),
                actual_seconds <= i64::MAX,
                match best {
                    Some(b) => closest_among(s, actual_seconds as int, i as int) == Some(b as int)
                        && b < i && s[b as int].1 is Some && best_dist == distance(
                        actual_seconds as int,
                        s[b as int].1->0 as int,
                    ),
                    None => closest_among(s, actual_seconds as int, i as int) is None,
                },
            decreases s.len() - i,
        {
            if let Some(g) = self.bets[i].1 {
                assert(s[i as int].1 == Some(g));
                assert(g < 10000);
                let d: u64 = if actual_seconds >= g {
                    actual_seconds - g
                } else {
                    g - actual_seconds
                };
                match best {
                    None => {
                        best = Some(i);
                        best_dist = d;
                    },
                    Some(_) => {
                        if d < best_dist {
                            best = Some(i);
                            best_dist = d;
                        }
                    },
                }
            }
            i = i + 1;
        }
        match best {
            Some(b) => Some((self.bets[b].0, self.bets[b].1.unwrap())),
            None => None,
        }
    }
}

/// The winning guess is a time guessed by its bettor, and no bet guessed closer; it
/// is missing only when nobody guessed a time.
pub proof fn law_winner_is_closest(s: Seq<(u64, Option<u64>)>, actual: int)
    ensures
        winner_of(s, actual) is None <==> forall|i: int| 0 <= i < s.len() ==> (#[trigger] s[i]).1 is None,
        winner_of(s, actual) matches Some(w) ==> s.contains((w.0, Some(w.1))) && forall|i: int|
            0 <= i < s.len() && (#[trigger] s[i]).1 is Some ==> distance(actual, w.1 as int)
                <= distance(actual, s[i].1->0 as int),
{
    lemma_closest(s, actual, s.len() as int);
    if let Some(i) = closest_among(s, actual, s.len() as int) {
        assert(s[i] == (s[i].0, Some(s[i].1->0)));
    }
}

proof fn lemma_closest(s: Seq<(u64, Option<u64>)>, actual: int, n: int)
    requires
        0 <= n <= s.len(),
    ensures
        closest_among(s, actual, n) is None <==> forall|i: int| 0 <= i < n ==> (#[trigger] s[i]).1 is None,
        closest_among(s, actual, n) matches Some(p) ==> 0 <= p < n && s[p].1 is Some && forall|i: int|
            0 <= i < n && (#[trigger] s[i]).1 is Some ==> distance(actual, s[p].1->0 as int)
                <= distance(actual, s[i].1->0 as int),
    decreases n,
{
    if n > 0 {
        lemma_closest(s, actual, n - 1);
    }
}

/// A character in ASCII lower case (`char::to_ascii_lowercase`).
pub open spec fn ascii_lower(c: char) -> char {
    if 'A' <= c && c <= 'Z' {
        ((c as int) + 32) as char
    } else {
        c
    }
}

/// The guess says "never", in any case.
pub open spec fn says_never(s: Seq<char>) -> bool {
    s.map_values(|c: char| ascii_lower(c)) == "never"@
}

/// How a guess reads: `None` for "never", else the seconds of `MM:SS`.
pub open spec fn guess_value(s: Seq<char>) -> Result<Option<u64>, BetError> {
    if says_never(s) {
        Ok(None)
    } else {
        match clock_guess_captures(s) {
            None => Err(BetError::BadFormat),
            Some((m, sec)) => match (parse_unsigned(m, u64::MAX as int), parse_unsigned(sec, u64::MAX as int)) {
                (Some(a), Some(b)) => Ok(Some((a * 60 + b) as u64)),
                _ => Err(BetError::Unreadable),
            },
        }
    }
}

fn lower_char(c: char) -> (r: char)
    ensures
        r == ascii_lower(c),
{
    if 'A' <= c && c <= 'Z' {
        let v: u32 = (c as u32) + 32;
        let r = char_from_u32(v).unwrap();
        assert(r == ((c as int) + 32) as char);
        r
    } else {
        c
    }
}

fn is_never(s: &str) -> (b: bool)
    ensures
        b == says_never(s@),
{
    proof {
        reveal_strlit("never");
    }
    let cs = chars_of(s);
    if cs.len() != 5 {
        assert(s@.map_values(|c: char| ascii_lower(c)).len() != "never"@.len());
        return false;
    }
    let target = ['n', 'e', 'v', 'e', 'r'];
    let mut i: usize = 0;
    while i < 5
        invariant
            i <= 5,
            cs@ == s@,
            cs@.len() == 5,
            target@ == "never"@,
            forall|j: int| 0 <= j < i ==> ascii_lower(#[trigger] cs@[j]) == target@[j],
        decreases 5 - i,
    {
        if lower_char(cs[i]) != target[i] {
            assert(s@.map_values(|c: char| ascii_lower(c))[i as int] != "never"@[i as int]);
            return false;
        }
        i = i + 1;
    }
    assert(s@.map_values(|c: char| ascii_lower(c)) =~= "never"@);
    true
}

proof fn lemma_two_digits(s: Seq<char>)
    requires
        s.len() == 2,
        parse_unsigned(s, u64::MAX as int) is Some,
    ensures
        parse_unsigned(s, u64::MAX as int)->0 <= 99,
{
    let digits = if s.len() > 0 && s[0] == '+' {
        s.drop_first()
    } else {
        s
    };
    assert(all_digits(digits));
    let d0 = digits.drop_last();
    assert(digit_value(digits[digits.len() - 1]) is Some);
    if digits.len() == 1 {
        assert(d0.len() == 0);
        assert(digits_value(d0) == 0);
        assert(digits_value(digits) == digits_value(d0) * 10 + digit_value(digits.last())->0);
    } else {
        assert(digit_value(digits[0]) is Some);
        assert(d0.len() == 1);
        assert(d0.last() == digits[0]);
        assert(d0.drop_last().len() == 0);
        assert(digits_value(d0.drop_last()) == 0);
        assert(digits_value(d0) == digits_value(d0.drop_last()) * 10 + digit_value(d0.last())->0);
        assert(digits_value(digits) == digits_value(d0) * 10 + digit_value(digits.last())->0);
    }
}

/// Reads a guess: "never" in any case, or a time `MM:SS`.
pub fn parse_guess(guess: &str) -> (r: Result<Option<u64>, BetError>)
    ensures
        r == guess_value(guess@),
        r matches Ok(Some(g)) ==> g < 10000,
{
    if is_never(guess) {
        return Ok(None);
    }
    match find_clock_guess(guess) {
        None => Err(BetError::BadFormat),
        Some((m, sec)) => {
            let a = parse_u64(m.as_str());
            let b = parse_u64(sec.as_str());
            match (a, b) {
                (Some(a), Some(b)) => {
                    proof {
                        lemma_two_digits(m@);
                        lemma_two_digits(sec@);
                    }
                    Ok(Some(a * 60 + b))
                },
                _ => Err(BetError::Unreadable),
            }
        },
    }
}

/// The betting pools, one per new member.
pub struct NSFWBets {
    pools: Vec<NSFWBet>,
}

/// How a pool ended.
pub enum PoolResult {
    /// Only one bet came in: it is paid back.
    Refund { bettors: Vec<u64>, wager: u64 },
    /// The closest guess takes the whole pool.
    Won { winner: u64, guess: u64, pool_coin: u64 },
    /// Everyone who guessed "never" gets an equal share, rounded up.
    NeverWon { winners: Vec<u64>, win_amount: u64 },
    /// Nobody wins; the wagers are kept.
    NoWinner,
}

/// A pool that was closed: the message whose button is to be disabled, and how the
/// pool ended.
pub struct ClosedPool {
    pub channel_id: u64,
    pub message_id: u64,
    pub result: PoolResult,
}

/// `a / b`, rounded up.
pub open spec fn ceil_div(a: int, b: int) -> int {
    (a + b - 1) / b
}

/// The position of the pool of `user` among `pools`.
pub open spec fn pool_index(pools: Seq<BetView>, user: u64) -> Option<int> {
    if exists|i: int| 0 <= i < pools.len() && #[trigger] pools[i].uid == user {
        Some(choose|i: int| 0 <= i < pools.len() && #[trigger] pools[i].uid == user)
    } else {
        None
    }
}

impl View for NSFWBets {
    type V = Seq<BetView>;

    closed spec fn view(&self) -> Seq<BetView> {
        self.pools@.map_values(|b: NSFWBet| b@)
    }
}

/// No member has two pools, and every pool is well formed.
pub open spec fn pools_wf(pools: Seq<BetView>) -> bool {
    &&& forall|i: int, j: int| 0 <= i < j < pools.len() ==> #[trigger] pools[i].uid != #[trigger] pools[j].uid
    &&& forall|i: int| 0 <= i < pools.len() ==> bettors_unique(#[trigger] pools[i].bets) && guesses_small(pools[i].bets)
}

/// The pool of `user`, if there is one.
pub open spec fn pool_of(pools: Seq<BetView>, user: u64) -> Option<BetView> {
    match pool_index(pools, user) {
        Some(i) => Some(pools[i]),
        None => None,
    }
}

/// The pools without the one of `user`.
pub open spec fn without_pool(pools: Seq<BetView>, user: u64) -> Seq<BetView> {
    match pool_index(pools, user) {
        Some(i) => pools.remove(i),
        None => pools,
    }
}


/// The pools with `b` in place of the pool of its member, or added when that member
/// has none.
pub open spec fn with_pool(pools: Seq<BetView>, b: BetView) -> Seq<BetView> {
    match pool_index(pools, b.uid) {
        Some(i) => pools.update(i, b),
        None => pools.push(b),
    }
}

/// The label of the bet button.
pub open spec fn bet_label(wager: u64) -> Seq<char> {
    "Bet ("@ + decimal(wager as nat) + " coin)"@
}

proof fn lemma_pool_index_unique(pools: Seq<BetView>, user: u64, i: int)
    requires
        pools_wf(pools),
        0 <= i < pools.len(),
        pools[i].uid == user,
    ensures
        pool_index(pools, user) == Some(i),
{
    let j = choose|j: int| 0 <= j < pools.len() && #[trigger] pools[j].uid == user;
    if j != i {
        if j < i {
            assert(pools[j].uid != pools[i].uid);
        } else {
            assert(pools[i].uid != pools[j].uid);
        }
    }
}

impl NSFWBets {
    /// No pools.
    pub fn new() -> (b: Self)
        ensures
            b@ == Seq::<BetView>::empty(),
    {
        let b = NSFWBets { pools: Vec::new() };
        assert(b@ =~= Seq::<BetView>::empty());
        b
    }

    /// The pools are well formed (see [`pools_wf`]).
    pub open spec fn wf(&self) -> bool {
        pools_wf(self@)
    }

    fn find_pool(&self, user: u64) -> (r: Option<usize>)
        requires
            self.wf(),
        ensures
            match r {
                Some(i) => pool_index(self@, user) == Some(i as int) && i < self@.len(),
                None => pool_index(self@, user) is None,
            },
    {
        let mut i: usize = 0;
        while i < self.pools.len()
            invariant
                i <= self.pools@.len(),
                self.wf(),
                forall|j: int| 0 <= j < i ==> #[trigger] self@[j].uid != user,
            decreases self.pools@.len() - i,
        {
            if self.pools[i].uid() == user {
                proof {
                    assert(self@[i as int] == self.pools@[i as int]@);
                    lemma_pool_index_unique(self@, user, i as int);
                }
                return Some(i);
            }
            assert(self@[i as int] == self.pools@[i as int]@);
            i = i + 1;
        }
        None
    }

    /// Opens a pool on `user` with the given wager and bet message, replacing any
    /// earlier pool on them.
    pub fn create_pool(&mut self, user: u64, wager: u64, message_id: u64, channel_id: u64)
        requires
            old(self).wf(),
        ensures
            final(self).wf(),
            final(self)@ == with_pool(
                old(self)@,
                BetView { bets: seq![], uid: user, wager, message_id, channel_id },
            ),
    {
        let fresh = NSFWBet::new(user, wager, message_id, channel_id);
        let ghost bv = fresh@;
        match self.find_pool(user) {
            Some(i) => {
                let mut pools = Vec::new();
                std::mem::swap(&mut pools, &mut self.pools);
                pools.set(i, fresh);
                self.pools = pools;
                assert(self@ =~= old(self)@.update(i as int, bv));
            },
            None => {
                self.pools.push(fresh);
                assert(self@ =~= old(self)@.push(bv));
                assert forall|a: int, b: int| 0 <= a < b < self@.len() implies #[trigger] self@[a].uid
                    != #[trigger] self@[b].uid by {
                    if b == self@.len() - 1 {
                        assert(old(self)@[a].uid != user);
                    }
                }
            },
        }
    }

    /// The pool on `user`, if any.
    pub fn get_pool(&self, user: u64) -> (r: Option<&NSFWBet>)
        requires
            self.wf(),
        ensures
            match r {
                Some(b) => pool_of(self@, user) == Some(b@),
                None => pool_of(self@, user) is None,
            },
    {
        match self.find_pool(user) {
            Some(i) => Some(&self.pools[i]),
            None => None,
        }
    }

    /// Takes the pool on `user` out, if there is one.
    pub fn take_pool(&mut self, user: u64) -> (r: Option<NSFWBet>)
        requires
            old(self).wf(),
        ensures
            final(self).wf(),
            final(self)@ == without_pool(old(self)@, user),
            match r {
                Some(b) => pool_of(old(self)@, user) == Some(b@) && b.wf(),
                None => pool_of(old(self)@, user) is None,
            },
    {
        match self.find_pool(user) {
            Some(i) => {
                let mut pools = Vec::new();
                std::mem::swap(&mut pools, &mut self.pools);
                let b = pools.remove(i);
                self.pools = pools;
                assert(self@ =~= old(self)@.remove(i as int));
                assert(b@ == old(self)@[i as int]);
                assert forall|x: int, y: int| 0 <= x < y < self@.len() implies #[trigger] self@[x].uid
                    != #[trigger] self@[y].uid by {
                    let x2 = if x < i { x } else { x + 1 };
                    let y2 = if y < i { y } else { y + 1 };
                    assert(old(self)@[x2].uid != old(self)@[y2].uid);
                }
                assert forall|x: int| 0 <= x < self@.len() implies bettors_unique(#[trigger] self@[x].bets)
                    && guesses_small(self@[x].bets) by {
                    let x2 = if x < i { x } else { x + 1 };
                    assert(self@[x] == old(self)@[x2]);
                }
                Some(b)
            },
            None => None,
        }
    }

    /// Removes the pool on `user`.
    pub fn remove_pool(&mut self, user: u64)
        requires
            old(self).wf(),
        ensures
            final(self).wf(),
            final(self)@ == without_pool(old(self)@, user),
    {
        let _ = self.take_pool(user);
    }

    /// Opens the pool on a member who just joined, and gives the label of its bet
    /// button.
    pub fn on_join(&mut self, user: u64, message_id: u64, channel_id: u64, wager: u64) -> (label: String)
        requires
            old(self).wf(),
        ensures
            final(self).wf(),
            final(self)@ == with_pool(
                old(self)@,
                BetView { bets: seq![], uid: user, wager, message_id, channel_id },
            ),
            label@ == bet_label(wager),
    {
        self.create_pool(user, wager, message_id, channel_id);
        let mut label = String::from_str("Bet (");
        push_decimal(&mut label, wager);
        label.append(" coin)");
        label
    }

    /// Checks a bet by `bettor` on `user`, made with the button of `message_id` and
    /// a balance of `balance` catcoin. On success the guess is given back: the wager
    /// is then to be taken, and [`NSFWBets::place_bet`] records the bet.
    pub fn prepare_bet(&self, user: u64, bettor: u64, message_id: u64, guess: &str, balance: i64) -> (r: Result<
        Option<u64>,
        BetError,
    >)
        requires
            self.wf(),
        ensures
            r == if bettor == user {
                Err(BetError::NotYou)
            } else {
                match pool_of(self@, user) {
                    None => Err(BetError::NoPool),
                    Some(b) => if b.message_id != message_id {
                        Err(BetError::Outdated)
                    } else if balance < b.wager as i64 {
                        Err(BetError::Broke)
                    } else {
                        match guess_value(guess@) {
                            Err(e) => Err(e),
                            Ok(g) => if has_bettor(b.bets, bettor) {
                                Err(BetError::AlreadyBet)
                            } else {
                                Ok(g)
                            },
                        }
                    },
                }
            },
            r matches Ok(Some(g)) ==> g < 10000,
    {
        if bettor == user {
            return Err(BetError::NotYou);
        }
        let b = match self.get_pool(user) {
            Some(b) => b,
            None => {
                return Err(BetError::NoPool);
            },
        };
        if b.message_id() != message_id {
            return Err(BetError::Outdated);
        }
        if balance < b.wager() as i64 {
            return Err(BetError::Broke);
        }
        let g = parse_guess(guess)?;
        if b.has_bet_already(bettor) {
            Err(BetError::AlreadyBet)
        } else {
            Ok(g)
        }
    }

    /// Records the bet of `bettor` on `user`, once its wager is paid.
    pub fn place_bet(&mut self, user: u64, bettor: u64, guess: Option<u64>)
        requires
            old(self).wf(),
            pool_of(old(self)@, user) matches Some(b) && !has_bettor(b.bets, bettor),
            guess matches Some(g) ==> g < 10000,
        ensures
            final(self).wf(),
            final(self)@ == with_pool(
                old(self)@,
                BetView {
                    bets: pool_of(old(self)@, user)->0.bets.push((bettor, guess)),
                    ..pool_of(old(self)@, user)->0
                },
            ),
    {
        let i = self.find_pool(user).unwrap();
        let mut pools = Vec::new();
        std::mem::swap(&mut pools, &mut self.pools);
        let mut b = pools.remove(i);
        assert(b@ == old(self)@[i as int]);
        b.add_bet(bettor, guess);
        let ghost bv = b@;
        pools.insert(i, b);
        self.pools = pools;
        assert(self@ =~= old(self)@.update(i as int, bv));
        assert forall|x: int, y: int| 0 <= x < y < self@.len() implies #[trigger] self@[x].uid
            != #[trigger] self@[y].uid by {
            assert(old(self)@[x].uid != old(self)@[y].uid);
        }
        assert forall|x: int| 0 <= x < self@.len() implies bettors_unique(#[trigger] self@[x].bets)
            && guesses_small(self@[x].bets) by {
            if x != i {
                assert(self@[x] == old(self)@[x]);
            }
        }
    }
}

/// `res` pays back every bet of `b`.
pub open spec fn refunds_all(res: PoolResult, b: BetView) -> bool {
    match res {
        PoolResult::Refund { bettors: v, wager } => v@ == bettors(b.bets) && wager == b.wager,
        _ => false,
    }
}

/// How a pool ends when its member takes the role `actual` seconds after joining.
pub open spec fn role_result(res: PoolResult, b: BetView, actual: int) -> bool {
    if b.bets.len() == 1 {
        refunds_all(res, b)
    } else {
        match winner_of(b.bets, actual) {
            Some(w) => match res {
                PoolResult::Won { winner, guess, pool_coin } => winner == w.0 && guess == w.1
                    && pool_coin == b.wager * b.bets.len(),
                _ => false,
            },
            None => res is NoWinner,
        }
    }
}

/// How a pool ends when its member lasts an hour without the role.
pub open spec fn hour_result(res: PoolResult, b: BetView) -> bool {
    if b.bets.len() == 1 {
        refunds_all(res, b)
    } else if never_bettors(b.bets).len() == 0 {
        res is NoWinner
    } else {
        match res {
            PoolResult::NeverWon { winners, win_amount } => winners@ == never_bettors(b.bets)
                && win_amount == ceil_div(
                b.wager * b.bets.len(),
                never_bettors(b.bets).len() as int,
            ),
            _ => false,
        }
    }
}

/// When the bettors who guessed "never" share a pool of `pool` coins among `n` of
/// them, each getting the rounded-up share, together they get the whole pool and
/// less than one coin each beyond it.
pub proof fn law_never_share_covers_pool(pool: int, n: int)
    requires
        pool >= 0,
        n > 0,
    ensures
        ceil_div(pool, n) * n >= pool,
        ceil_div(pool, n) * n < pool + n,
{
    let t = pool + n - 1;
    vstd::arithmetic::div_mod::lemma_fundamental_div_mod(t, n);
    vstd::arithmetic::div_mod::lemma_mod_bound(t, n);
    vstd::arithmetic::mul::lemma_mul_is_commutative(n, t / n);
}

/// `r` closes pool `b` with a result for which `ok` holds.
pub open spec fn closes(r: Option<ClosedPool>, b: BetView, ok: spec_fn(PoolResult) -> bool) -> bool {
    match r {
        Some(c) => c.channel_id == b.channel_id && c.message_id == b.message_id && ok(c.result),
        None => false,
    }
}

/// The bettors of a pool, in bet order.
fn all_bettors(b: &NSFWBet) -> (v: Vec<u64>)
    ensures
        v@ == bettors(b@.bets),
{
    let mut v: Vec<u64> = Vec::new();
    let mut i: usize = 0;
    while i < b.bets.len()
        invariant
            i <= b.bets@.len(),
            v@ == bettors(b.bets@.take(i as int)),
        decreases b.bets@.len() - i,
    {
        v.push(b.bets[i].0);
        i = i + 1;
        assert(v@ =~= bettors(b.bets@.take(i as int)));
    }
    assert(b.bets@.take(b.bets@.len() as int) =~= b.bets@);
    v
}

impl NSFWBets {
    /// The member `user` gave themselves the nsfw role `actual` seconds after joining:
    /// their pool is closed. A single bet is paid back; otherwise the closest guess
    /// (see [`winner_of`]) takes every wager, and without a guessed time nobody wins.
    pub fn on_nsfw_role_assigned(&mut self, user: u64, actual: u64) -> (r: Option<ClosedPool>)
        requires
            old(self).wf(),
            actual <= i64::MAX,
            pool_of(old(self)@, user) matches Some(b) ==> b.wager * b.bets.len() <= u64::MAX,
        ensures
            final(self).wf(),
            final(self)@ == without_pool(old(self)@, user),
            pool_of(old(self)@, user) is None ==> r is None,
            pool_of(old(self)@, user) matches Some(b) ==> closes(r, b, |res: PoolResult| role_result(res, b, actual as int)),
    {
        let b = match self.take_pool(user) {
            Some(b) => b,
            None => {
                return None;
            },
        };
        let result = if b.bet_count() == 1 {
            PoolResult::Refund { bettors: all_bettors(&b), wager: b.wager() }
        } else {
            match b.get_winner(actual) {
                Some((winner, guess)) => PoolResult::Won {
                    winner,
                    guess,
                    pool_coin: b.wager() * (b.bet_count() as u64),
                },
                None => PoolResult::NoWinner,
            }
        };
        Some(ClosedPool { channel_id: b.channel_id(), message_id: b.message_id(), result })
    }

    /// An hour went by and `user` has not given themselves the nsfw role: their pool
    /// is closed. A single bet is paid back; otherwise the bettors who guessed
    /// "never" share every wager, each getting the pool divided by their number,
    /// rounded up; without such bettors nobody wins.
    pub fn on_hour_passed(&mut self, user: u64) -> (r: Option<ClosedPool>)
        requires
            old(self).wf(),
            pool_of(old(self)@, user) matches Some(b) ==> b.wager * b.bets.len() <= MAX_EXACT_POOL,
        ensures
            final(self).wf(),
            final(self)@ == without_pool(old(self)@, user),
            pool_of(old(self)@, user) is None ==> r is None,
            pool_of(old(self)@, user) matches Some(b) ==> closes(r, b, |res: PoolResult| hour_result(res, b)),
    {
        let b = match self.take_pool(user) {
            Some(b) => b,
            None => {
                return None;
            },
        };
        let result = if b.bet_count() == 1 {
            PoolResult::Refund { bettors: all_bettors(&b), wager: b.wager() }
        } else {
            let winners = b.get_never_bets();
            if winners.len() == 0 {
                PoolResult::NoWinner
            } else {
                let pool_coin: u64 = b.wager() * (b.bet_count() as u64);
                let n = winners.len() as u64;
                let win_amount = pool_coin / n + if pool_coin % n != 0 {
                    1
                } else {
                    0
                };
                assert(win_amount == ceil_div(pool_coin as int, n as int)) by (nonlinear_arith)
                    requires
                        n > 0,
                        win_amount == pool_coin / n + if pool_coin % n != 0 {
                            1int
                        } else {
                            0int
                        },
                ;
                PoolResult::NeverWon { winners, win_amount }
            }
        };
        Some(ClosedPool { channel_id: b.channel_id(), message_id: b.message_id(), result })
    }

    /// The member `user` left: every bet on them is paid back.
    pub fn on_leave(&mut self, user: u64) -> (r: Option<ClosedPool>)
        requires
            old(self).wf(),
        ensures
            final(self).wf(),
            final(self)@ == without_pool(old(self)@, user),
            pool_of(old(self)@, user) is None ==> r is None,
            pool_of(old(self)@, user) matches Some(b) ==> closes(r, b, |res: PoolResult| refunds_all(res, b)),
    {
        let b = match self.take_pool(user) {
            Some(b) => b,
            None => {
                return None;
            },
        };
        let result = PoolResult::Refund { bettors: all_bettors(&b), wager: b.wager() };
        Some(ClosedPool { channel_id: b.channel_id(), message_id: b.message_id(), result })
    }

    /// The role call-out: when `user`'s pool has a guessed time, its closest guess
    /// wins every wager and the pool is closed; otherwise nothing changes.
    pub fn callout_winner(&mut self, user: u64, total_seconds: u64) -> (r: Option<(u64, u64, u64)>)
        requires
            old(self).wf(),
            total_seconds <= i64::MAX,
            pool_of(old(self)@, user) matches Some(b) ==> b.wager * b.bets.len() <= u64::MAX,
        ensures
            final(self).wf(),
            match pool_of(old(self)@, user) {
                Some(b) => match winner_of(b.bets, total_seconds as int) {
                    Some(w) => r == Some((w.0, w.1, (b.wager * b.bets.len()) as u64)) && final(self)@
                        == without_pool(old(self)@, user),
                    None => r is None && final(self)@ == old(self)@,
                },
                None => r is None && final(self)@ == old(self)@,
            },
    {
        let found = match self.get_pool(user) {
            Some(b) => match b.get_winner(total_seconds) {
                Some((w, g)) => Some((w, g, b.wager() * (b.bet_count() as u64))),
                None => None,
            },
            None => None,
        };
        if found.is_some() {
            self.remove_pool(user);
        }
        found
    }
}

/// The call-out posted when a new member gives themselves the nsfw role.
pub open spec fn callout_text(
    member: u64,
    total_seconds: u64,
    win: Option<(u64, u64, u64)>,
    coin: Seq<char>,
) -> Seq<char> {
    let head = "<@"@ + decimal(member as nat) + ">"@ + " has assigned themselves the NSFW role. Time since joining: `"@
        + hhmmss_text(total_seconds as nat) + "`"@;
    match win {
        Some((winner, guess, pool)) => head + "\nClosest guess: `"@ + hhmmss_text(guess as nat)
            + "` by <@"@ + decimal(winner as nat) + "> ("@ + coin + " **+"@ + decimal(pool as nat)
            + "**)"@,
        None => head,
    }
}

/// Writes the call-out (see [`callout_text`]).
pub fn callout_message(member: u64, total_seconds: u64, win: Option<(u64, u64, u64)>, coin: &str) -> (s: String)
    ensures
        s@ == callout_text(member, total_seconds, win, coin@),
{
    let mut s = String::from_str("<@");
    push_decimal(&mut s, member);
    s.append(">");
    s.append(" has assigned themselves the NSFW role. Time since joining: `");
    let t = hhmmss(total_seconds);
    s.append(t.as_str());
    s.append("`");
    match win {
        Some((winner, guess, pool)) => {
            s.append("\nClosest guess: `");
            let g = hhmmss(guess);
            s.append(g.as_str());
            s.append("` by <@");
            push_decimal(&mut s, winner);
            s.append("> (");
            s.append(coin);
            s.append(" **+");
            push_decimal(&mut s, pool);
            s.append("**)");
        },
        None => {},
    }
    s
}

/// The announcement when a member lasted an hour without the role.
pub fn hour_passed_message(member: u64, coin: &str, win_amount: u64, winners: usize) -> (s: String)
    ensures
        s@ == "<@"@ + decimal(member as nat) + "> lasted 1 hour. "@ + coin@ + " **+"@ + decimal(
            win_amount as nat,
        ) + "** to the **"@ + decimal(winners as nat) + "** who guessed 'never'!\n"@,
{
    let mut s = String::from_str("<@");
    push_decimal(&mut s, member);
    s.append("> lasted 1 hour. ");
    s.append(coin);
    s.append(" **+");
    push_decimal(&mut s, win_amount);
    s.append("** to the **");
    push_decimal(&mut s, winners as u64);
    s.append("** who guessed 'never'!\n");
    s
}

/// Members already called out for taking the nsfw role.
pub struct CalloutSet {
    ids: Vec<u64>,
}

impl View for CalloutSet {
    type V = Set<u64>;

    closed spec fn view(&self) -> Set<u64> {
        self.ids@.to_set()
    }
}

impl CalloutSet {
    /// Nobody called out yet.
    pub fn new() -> (c: Self)
        ensures
            c@ == Set::<u64>::empty(),
    {
        let c = CalloutSet { ids: Vec::new() };
        assert(c@ =~= Set::<u64>::empty());
        c
    }

    /// Adds a member; true when they were not there yet.
    pub fn insert(&mut self, id: u64) -> (b: bool)
        ensures
            final(self)@ == old(self)@.insert(id),
            b == !old(self)@.contains(id),
    {
        let mut i: usize = 0;
        while i < self.ids.len()
            invariant
                i <= self.ids@.len(),
                self.ids@ == old(self).ids@,
                forall|j: int| 0 <= j < i ==> self.ids@[j] != id,
            decreases self.ids@.len() - i,
        {
            if self.ids[i] == id {
                assert(self.ids@.to_set().contains(self.ids@[i as int]));
                assert(old(self)@.insert(id) =~= old(self)@);
                return false;
            }
            i = i + 1;
        }
        assert(!old(self)@.contains(id));
        self.ids.push(id);
        assert forall|x: u64| self.ids@.contains(x) <==> old(self).ids@.contains(x) || x == id by {
            if self.ids@.contains(x) {
                let j = choose|j: int| 0 <= j < self.ids@.len() && self.ids@[j] == x;
                if j < old(self).ids@.len() {
                    assert(old(self).ids@[j] == x);
                }
            }
            if old(self).ids@.contains(x) {
                let j = choose|j: int| 0 <= j < old(self).ids@.len() && old(self).ids@[j] == x;
                assert(self.ids@[j] == x);
            }
            if x == id {
                assert(self.ids@[self.ids@.len() - 1] == x);
            }
        }
        assert(self.ids@.to_set() =~= old(self).ids@.to_set().insert(id));
        true
    }
}

/// Whether a change of roles is to be called out: the member did not have the nsfw
/// role, has it now, joined at most an hour ago (`since_join_ns` nanoseconds), and
/// was not called out before (they are added to `called`).
pub fn should_call_out(called: &mut CalloutSet, member: u64, had_role: bool, has_role: bool, since_join_ns: u64) -> (b: bool)
    ensures
        b == (!had_role && has_role && since_join_ns <= HOUR_NANOS && !old(called)@.contains(member)),
        !had_role && has_role && since_join_ns <= HOUR_NANOS ==> final(called)@ == old(called)@.insert(member),
        !(!had_role && has_role && since_join_ns <= HOUR_NANOS) ==> final(called)@ == old(called)@,
{
    if !had_role && has_role && since_join_ns <= HOUR_NANOS {
        called.insert(member)
    } else {
        false
    }
}

} // verus!
