//! The persistent records of the lottery and their mathematical models.

use std::collections::HashMap;
use vstd::prelude::*;

use crate::encoding::{append_bytes, decimal_string, decimal_text};
use crate::msg::TierConfig;

verus! {

broadcast use vstd::std_specs::hash::group_hash_axioms;

/// Number of configured tiers; tier ids run from 1 to this value.
pub const TIER_COUNT: usize = 3;

/// Number of recent picks kept for mixing into the draw seed.
pub const ENTROPY_CAPACITY: usize = 6;

/// Sum of all counters of a picks histogram.
pub open spec fn picks_total(picks: Seq<u32>) -> nat
    decreases picks.len(),
{
    if picks.len() == 0 {
        0
    } else {
        picks_total(picks.drop_last()) + picks.last() as nat
    }
}

/// The counter a histogram keeps for `number`; numbers outside the histogram count zero.
pub open spec fn picks_of(picks: Seq<u32>, number: u32) -> u32 {
    if 1 <= number <= picks.len() {
        picks[number - 1]
    } else {
        0
    }
}

/// Replacing one counter moves the total by the difference of the two values.
pub proof fn lemma_picks_total_update(picks: Seq<u32>, i: int, value: u32)
    requires
        0 <= i < picks.len(),
    ensures
        picks_total(picks.update(i, value)) == picks_total(picks) - picks[i] + value,
    decreases picks.len(),
{
    let updated = picks.update(i, value);
    if i == picks.len() - 1 {
        assert(updated.drop_last() =~= picks.drop_last());
    } else {
        assert(updated.drop_last() =~= picks.drop_last().update(i, value));
        lemma_picks_total_update(picks.drop_last(), i, value);
    }
}

/// No single counter exceeds the total.
pub proof fn lemma_picks_total_bounds(picks: Seq<u32>, i: int)
    requires
        0 <= i < picks.len(),
    ensures
        picks[i] <= picks_total(picks),
    decreases picks.len(),
{
    if i < picks.len() - 1 {
        lemma_picks_total_bounds(picks.drop_last(), i);
    }
}

/// A histogram of zeros totals zero.
pub proof fn lemma_picks_total_zeros(picks: Seq<u32>)
    requires
        forall|i: int| 0 <= i < picks.len() ==> picks[i] == 0,
    ensures
        picks_total(picks) == 0,
    decreases picks.len(),
{
    if picks.len() > 0 {
        lemma_picks_total_zeros(picks.drop_last());
    }
}

/// One betting cycle of a tier.
#[derive(Clone, Debug, PartialEq)]
pub struct RoundStruct {
    /// Position of the round in its tier's ledger, counted from zero.
    pub round_number: u32,
    /// Funds currently held by the round.
    pub pool_size: u128,
    /// The drawn number; `None` while the round is open.
    pub lucky_number: Option<u32>,
    /// Number of active bets.
    pub users_count: u32,
    /// Time of the draw that closed the round.
    pub round_end_timestamp: Option<u64>,
    /// Pool left for the winners once the triggerer fee was taken.
    pub round_end_pool_size: Option<u128>,
    /// Number of bets on the drawn number.
    pub winner_count: Option<u32>,
    /// Entry `i` counts the active bets on number `i + 1`.
    pub users_picked_numbers_count: Vec<u32>,
}

/// Mathematical model of a [`RoundStruct`].
#[verifier::ext_equal]
pub struct RoundView {
    pub round_number: u32,
    pub pool_size: u128,
    pub lucky_number: Option<u32>,
    pub users_count: u32,
    pub round_end_timestamp: Option<u64>,
    pub round_end_pool_size: Option<u128>,
    pub winner_count: Option<u32>,
    pub picks: Seq<u32>,
}

impl View for RoundStruct {
    type V = RoundView;

    open spec fn view(&self) -> RoundView {
        RoundView {
            round_number: self.round_number,
            pool_size: self.pool_size,
            lucky_number: self.lucky_number,
            users_count: self.users_count,
            round_end_timestamp: self.round_end_timestamp,
            round_end_pool_size: self.round_end_pool_size,
            winner_count: self.winner_count,
            picks: self.users_picked_numbers_count@,
        }
    }
}

impl RoundView {
    /// A round is open until a draw gives it a lucky number.
    pub open spec fn is_open(self) -> bool {
        self.lucky_number is None
    }

    /// The fresh round that a tier opens with `max_number` numbers and `pool_size` carried in.
    pub open spec fn opened(round_number: u32, max_number: u32, pool_size: u128) -> RoundView {
        RoundView {
            round_number,
            pool_size,
            lucky_number: None,
            users_count: 0,
            round_end_timestamp: None,
            round_end_pool_size: None,
            winner_count: None,
            picks: Seq::new(max_number as nat, |i: int| 0u32),
        }
    }

    /// Internal consistency of one round.
    ///
    /// The histogram accounts for every active bet. An open round carries no
    /// closing data. A closed round records a lucky number of
    /// its own range, the bets on that number as winner count, and holds
    /// either the amount left for its winners or, without winners, nothing.
    pub open spec fn wf(self) -> bool {
        &&& self.picks.len() <= u32::MAX
        &&& self.users_count == picks_total(self.picks)
        &&& match self.lucky_number {
            None => {
                &&& self.round_end_timestamp is None
                &&& self.round_end_pool_size is None
                &&& self.winner_count is None
            },
            Some(n) => {
                &&& 1 <= n <= self.picks.len()
                &&& self.round_end_timestamp is Some
                &&& self.round_end_pool_size is Some
                &&& self.winner_count == Some(self.picks[n - 1])
                &&& self.pool_size == if self.picks[n - 1] == 0 {
                    0
                } else {
                    self.round_end_pool_size->0
                }
            },
        }
    }
}

impl RoundStruct {
    /// Opens a round with an empty histogram of `max_number` counters.
    pub fn open(round_number: u32, max_number: u32, pool_size: u128) -> (round: RoundStruct)
        ensures
            round@ == RoundView::opened(round_number, max_number, pool_size),
            round@.wf(),
    {
        let mut picks: Vec<u32> = Vec::new();
        let mut i: u32 = 0;
        while i < max_number
            invariant
                i <= max_number,
                picks@ == Seq::new(i as nat, |k: int| 0u32),
            decreases max_number - i,
        {
            picks.push(0);
            i = i + 1;
        }
        proof {
            lemma_picks_total_zeros(picks@);
        }
        RoundStruct {
            round_number,
            pool_size,
            lucky_number: None,
            users_count: 0,
            round_end_timestamp: None,
            round_end_pool_size: None,
            winner_count: None,
            users_picked_numbers_count: picks,
        }
    }

    /// Whether the round satisfies [`RoundView::wf`].
    pub fn is_wf(&self) -> (ok: bool)
        ensures
            ok == self@.wf(),
    {
        let len = self.users_picked_numbers_count.len();
        if len > u32::MAX as usize {
            return false;
        }
        let mut total: u64 = 0;
        let mut i: usize = 0;
        while i < len
            invariant
                i <= len,
                len == self.users_picked_numbers_count@.len(),
                len <= u32::MAX,
                total == picks_total(self.users_picked_numbers_count@.take(i as int)),
                total <= i * u32::MAX,
            decreases len - i,
        {
            proof {
                let s = self.users_picked_numbers_count@;
                assert(s.take(i + 1).drop_last() =~= s.take(i as int));
                assert(i * u32::MAX + u32::MAX == (i + 1) * u32::MAX) by (nonlinear_arith);
                assert((i + 1) * u32::MAX <= u32::MAX * u32::MAX) by (nonlinear_arith)
                    requires
                        i + 1 <= u32::MAX,
                ;
            }
            total = total + self.users_picked_numbers_count[i] as u64;
            i = i + 1;
        }
        assert(self.users_picked_numbers_count@.take(len as int)
            =~= self.users_picked_numbers_count@);
        if total != self.users_count as u64 {
            return false;
        }
        match self.lucky_number {
            None => self.round_end_timestamp.is_none() && self.round_end_pool_size.is_none()
                && self.winner_count.is_none(),
            Some(n) => {
                if n < 1 || n as usize > len {
                    return false;
                }
                let winners = self.users_picked_numbers_count[n as usize - 1];
                match (self.round_end_timestamp, self.round_end_pool_size, self.winner_count) {
                    (Some(_), Some(end_pool), Some(count)) => count == winners && self.pool_size
                        == if winners == 0 {
                        0
                    } else {
                        end_pool
                    },
                    _ => false,
                }
            },
        }
    }
}

/// One tier: its parameters and its append-only ledger of rounds.
#[derive(Clone, Debug, PartialEq)]
pub struct TierState {
    /// Parameters in force for bets, draws and newly opened rounds.
    pub config: TierConfig,
    /// All rounds of the tier, oldest first; the last one is the open round.
    pub rounds: Vec<RoundStruct>,
}

/// Mathematical model of a [`TierState`].
#[verifier::ext_equal]
pub struct TierView {
    pub config: TierConfig,
    pub rounds: Seq<RoundView>,
}

impl View for TierState {
    type V = TierView;

    open spec fn view(&self) -> TierView {
        TierView { config: self.config, rounds: self.rounds@.map_values(|r: RoundStruct| r@) }
    }
}

impl TierView {
    /// A tier under `config` whose round 0 is open and empty.
    pub open spec fn initial(config: TierConfig) -> TierView {
        TierView { config, rounds: seq![RoundView::opened(0, config.max_rand_number, 0)] }
    }

    /// The round that currently takes bets.
    pub open spec fn current(self) -> RoundView
        recommends
            self.rounds.len() >= 1,
    {
        self.rounds.last()
    }

    /// Ledger invariant of a tier.
    ///
    /// Round numbers are `0, 1, 2, ..` without gaps, every round but the last
    /// is closed, and the last round is open.
    pub open spec fn wf(self) -> bool {
        &&& 1 <= self.rounds.len() <= u32::MAX
        &&& forall|i: int|
            0 <= i < self.rounds.len() ==> {
                &&& (#[trigger] self.rounds[i]).wf()
                &&& self.rounds[i].round_number == i
                &&& (self.rounds[i].is_open() <==> i == self.rounds.len() - 1)
            }
    }

    /// Whether the open round's pool has reached the draw threshold.
    pub open spec fn ready(self) -> bool {
        self.current().pool_size as int >= self.config.threshold()
    }
}

impl TierState {
    /// A tier with its first round open and empty.
    pub fn new(config: TierConfig) -> (tier: TierState)
        ensures
            tier@ == TierView::initial(config),
            tier@.wf(),
    {
        let mut rounds: Vec<RoundStruct> = Vec::new();
        rounds.push(RoundStruct::open(0, config.max_rand_number, 0));
        let tier = TierState { config, rounds };
        assert(tier@.rounds =~= seq![RoundView::opened(0, config.max_rand_number, 0)]);
        tier
    }

    /// Whether the tier satisfies [`TierView::wf`].
    pub fn is_wf(&self) -> (ok: bool)
        ensures
            ok == self@.wf(),
    {
        let len = self.rounds.len();
        if len < 1 || len > u32::MAX as usize {
            return false;
        }
        let mut i: usize = 0;
        while i < len
            invariant
                i <= len,
                len == self.rounds@.len(),
                1 <= len <= u32::MAX,
                forall|k: int|
                    0 <= k < i ==> {
                        &&& (#[trigger] self@.rounds[k]).wf()
                        &&& self@.rounds[k].round_number == k
                        &&& (self@.rounds[k].is_open() <==> k == len - 1)
                    },
            decreases len - i,
        {
            let round = &self.rounds[i];
            assert(self@.rounds[i as int] == round@);
            let open = round.lucky_number.is_none();
            if !round.is_wf() || round.round_number as usize != i || open != (i == len - 1) {
                return false;
            }
            i = i + 1;
        }
        true
    }
}

/// One user's bet on one round of one tier.
#[derive(Clone, Copy, Debug, PartialEq, Eq, Structural)]
pub struct UserBetStruct {
    /// The round that was open when the bet was placed.
    pub round_number: u32,
    /// Tier the bet was placed on.
    pub tier: i8,
    /// The number picked.
    pub number: u32,
    /// Set once the reward of a winning bet has been paid out.
    pub claimed_reward: bool,
    /// Time at which the bet was placed.
    pub timestamp: u64,
}

/// The key under which a user's bet on `round_number` of `tier` is filed.
pub open spec fn bet_key(tier: i8, round_number: u32) -> u64 {
    ((tier as int + 128) * 0x1_0000_0000 + round_number as int) as u64
}

/// Computes [`bet_key`].
pub fn mapping_key(tier: i8, round_number: u32) -> (key: u64)
    ensures
        key == bet_key(tier, round_number),
{
    ((tier as i64 + 128) as u64) * 0x1_0000_0000 + round_number as u64
}

/// A tier id in decimal digits, with a minus sign before those of a negative id.
pub open spec fn tier_text(tier: i8) -> Seq<u8> {
    if tier < 0 {
        seq![45u8] + decimal_text((-tier) as nat)
    } else {
        decimal_text(tier as nat)
    }
}

/// The name by which a bet on `round_number` of `tier` is known outside the
/// lottery: the ASCII text `tier<id>_round<n>`.
pub open spec fn bet_key_text(tier: i8, round_number: u32) -> Seq<u8> {
    seq![116u8, 105, 101, 114] + tier_text(tier) + seq![95u8, 114, 111, 117, 110, 100]
        + decimal_text(round_number as nat)
}

/// Writes [`bet_key_text`].
pub fn mapping_key_text(tier: i8, round_number: u32) -> (text: Vec<u8>)
    ensures
        text@ == bet_key_text(tier, round_number),
{
    let mut text: Vec<u8> = Vec::new();
    text.push(116);
    text.push(105);
    text.push(101);
    text.push(114);
    assert(text@ =~= seq![116u8, 105, 101, 114]);
    if tier < 0 {
        text.push(45);
        let digits = decimal_string((-(tier as i64)) as u64);
        append_bytes(&mut text, digits.as_slice());
    } else {
        let digits = decimal_string(tier as u64);
        append_bytes(&mut text, digits.as_slice());
    }
    assert(text@ =~= seq![116u8, 105, 101, 114] + tier_text(tier));
    text.push(95);
    text.push(114);
    text.push(111);
    text.push(117);
    text.push(110);
    text.push(100);
    assert(text@ =~= seq![116u8, 105, 101, 114] + tier_text(tier) + seq![
        95u8,
        114,
        111,
        117,
        110,
        100,
    ]);
    let digits = decimal_string(round_number as u64);
    append_bytes(&mut text, digits.as_slice());
    text
}

impl UserBetStruct {
    /// The key this bet is filed under.
    pub open spec fn key(self) -> u64 {
        bet_key(self.tier, self.round_number)
    }

    /// The name by which this bet is known outside the lottery.
    pub open spec fn key_text(self) -> Seq<u8> {
        bet_key_text(self.tier, self.round_number)
    }
}

/// All bets of one user: the keys in the order the bets were placed, and the bets by key.
#[derive(Clone, Debug, PartialEq)]
pub struct UserBetsStruct {
    pub bet_keys: Vec<u64>,
    pub bets: HashMap<u64, UserBetStruct>,
}

/// Mathematical model of a [`UserBetsStruct`].
#[verifier::ext_equal]
pub struct UserBetsView {
    pub bet_keys: Seq<u64>,
    pub bets: Map<u64, UserBetStruct>,
}

impl View for UserBetsStruct {
    type V = UserBetsView;

    open spec fn view(&self) -> UserBetsView {
        UserBetsView { bet_keys: self.bet_keys@, bets: self.bets@ }
    }
}

impl UserBetsView {
    /// The collection without any bet.
    pub open spec fn empty() -> UserBetsView {
        UserBetsView { bet_keys: Seq::empty(), bets: Map::empty() }
    }

    /// Each key is listed once, the listed keys are exactly the keys of the
    /// map, and every bet is filed under the key of its own tier and round.
    /// So a user holds at most one bet per tier and round.
    pub open spec fn wf(self) -> bool {
        &&& self.bet_keys.no_duplicates()
        &&& forall|k: u64| self.bets.contains_key(k) <==> self.bet_keys.contains(k)
        &&& forall|k: u64| #[trigger] self.bets.contains_key(k) ==> self.bets[k].key() == k
    }

    /// Whether the user holds a bet on `round_number` of `tier`.
    pub open spec fn has_bet(self, tier: i8, round_number: u32) -> bool {
        self.bets.contains_key(bet_key(tier, round_number))
    }

    /// The user's bet on `round_number` of `tier`, if there is one.
    pub open spec fn bet_on(self, tier: i8, round_number: u32) -> Option<UserBetStruct> {
        if self.has_bet(tier, round_number) {
            Some(self.bets[bet_key(tier, round_number)])
        } else {
            None
        }
    }

    /// The collection with `bet` added as the most recent bet.
    pub open spec fn with_bet(self, bet: UserBetStruct) -> UserBetsView {
        UserBetsView {
            bet_keys: self.bet_keys.push(bet.key()),
            bets: self.bets.insert(bet.key(), bet),
        }
    }

    /// The collection without the bet on `round_number` of `tier`.
    pub open spec fn without_bet(self, tier: i8, round_number: u32) -> UserBetsView {
        let key = bet_key(tier, round_number);
        if self.bets.contains_key(key) {
            UserBetsView {
                bet_keys: self.bet_keys.remove(self.bet_keys.index_of(key)),
                bets: self.bets.remove(key),
            }
        } else {
            self
        }
    }

    /// The collection with the bet on `round_number` of `tier` marked as paid out.
    pub open spec fn with_claimed(self, tier: i8, round_number: u32) -> UserBetsView {
        let key = bet_key(tier, round_number);
        if self.bets.contains_key(key) {
            UserBetsView {
                bet_keys: self.bet_keys,
                bets: self.bets.insert(
                    key,
                    UserBetStruct { claimed_reward: true, ..self.bets[key] },
                ),
            }
        } else {
            self
        }
    }

    /// The bets in the order they were placed.
    pub open spec fn history(self) -> Seq<UserBetStruct> {
        self.bet_keys.map_values(|k: u64| self.bets[k])
    }

    /// Adding a bet on a tier and round without one keeps the collection well formed.
    pub proof fn lemma_with_bet_wf(self, bet: UserBetStruct)
        requires
            self.wf(),
            !self.has_bet(bet.tier, bet.round_number),
        ensures
            self.with_bet(bet).wf(),
            self.with_bet(bet).has_bet(bet.tier, bet.round_number),
    {
        let after = self.with_bet(bet);
        let key = bet.key();
        assert(!self.bet_keys.contains(key));
        assert forall|k: u64| after.bets.contains_key(k) <==> after.bet_keys.contains(k) by {
            if k == key {
                assert(after.bet_keys[self.bet_keys.len() as int] == key);
            } else if self.bet_keys.contains(k) {
                let i = self.bet_keys.index_of(k);
                assert(after.bet_keys[i] == k);
            }
        }
    }

    /// Removing a bet keeps the collection well formed and leaves no bet on that tier and round.
    pub proof fn lemma_without_bet_wf(self, tier: i8, round_number: u32)
        requires
            self.wf(),
        ensures
            self.without_bet(tier, round_number).wf(),
            !self.without_bet(tier, round_number).has_bet(tier, round_number),
    {
        let key = bet_key(tier, round_number);
        if self.bets.contains_key(key) {
            let after = self.without_bet(tier, round_number);
            let at = self.bet_keys.index_of(key);
            assert(self.bet_keys.contains(key));
            assert(0 <= at < self.bet_keys.len() && self.bet_keys[at] == key);
            assert forall|i: int, j: int|
                0 <= i < after.bet_keys.len() && 0 <= j < after.bet_keys.len() && i
                    != j implies after.bet_keys[i] != after.bet_keys[j] by {
                let oi = if i < at { i } else { i + 1 };
                let oj = if j < at { j } else { j + 1 };
                assert(after.bet_keys[i] == self.bet_keys[oi]);
                assert(after.bet_keys[j] == self.bet_keys[oj]);
            }
            assert forall|k: u64| after.bets.contains_key(k) <==> after.bet_keys.contains(k) by {
                if after.bet_keys.contains(k) {
                    let i = after.bet_keys.index_of(k);
                    let oi = if i < at { i } else { i + 1 };
                    assert(after.bet_keys[i] == self.bet_keys[oi]);
                    assert(self.bet_keys.contains(k));
                    assert(k != key);
                }
                if after.bets.contains_key(k) {
                    let oi = self.bet_keys.index_of(k);
                    assert(self.bet_keys.contains(k));
                    assert(oi != at);
                    let i = if oi < at { oi } else { oi - 1 };
                    assert(after.bet_keys[i] == k);
                }
            }
        }
    }

    /// Marking a bet as paid out keeps the collection well formed.
    pub proof fn lemma_with_claimed_wf(self, tier: i8, round_number: u32)
        requires
            self.wf(),
        ensures
            self.with_claimed(tier, round_number).wf(),
    {
        let key = bet_key(tier, round_number);
        if self.bets.contains_key(key) {
            let after = self.with_claimed(tier, round_number);
            assert forall|k: u64| after.bets.contains_key(k) <==> after.bet_keys.contains(k) by {
                if k == key {
                    assert(self.bets.contains_key(k));
                }
            }
        }
    }
}

impl UserBetsStruct {
    /// The collection of a user who has not bet yet.
    pub fn new() -> (bets: UserBetsStruct)
        ensures
            bets@ == UserBetsView::empty(),
            bets@.wf(),
    {
        UserBetsStruct { bet_keys: Vec::new(), bets: HashMap::new() }
    }

    /// The user's bet on `round_number` of `tier`, if there is one.
    pub fn get_bet(&self, tier: i8, round_number: u32) -> (bet: Option<UserBetStruct>)
        ensures
            bet == self@.bet_on(tier, round_number),
    {
        let key = mapping_key(tier, round_number);
        match self.bets.get(&key) {
            Some(bet) => Some(*bet),
            None => None,
        }
    }

    /// Files `bet` as the user's most recent bet.
    pub(crate) fn record(&mut self, bet: UserBetStruct)
        requires
            old(self)@.wf(),
            !old(self)@.has_bet(bet.tier, bet.round_number),
        ensures
            final(self)@ == old(self)@.with_bet(bet),
            final(self)@.wf(),
    {
        let key = mapping_key(bet.tier, bet.round_number);
        proof {
            self@.lemma_with_bet_wf(bet);
        }
        self.bet_keys.push(key);
        self.bets.insert(key, bet);
    }

    /// Deletes the user's bet on `round_number` of `tier`, if there is one.
    pub fn remove_bet(&mut self, tier: i8, round_number: u32)
        requires
            old(self)@.wf(),
        ensures
            final(self)@ == old(self)@.without_bet(tier, round_number),
            final(self)@.wf(),
    {
        let key = mapping_key(tier, round_number);
        proof {
            self@.lemma_without_bet_wf(tier, round_number);
        }
        if !self.bets.contains_key(&key) {
            return ;
        }
        assert(self.bet_keys@.contains(key));
        let len = self.bet_keys.len();
        let mut at: usize = 0;
        while self.bet_keys[at] != key
            invariant
                at < len,
                len == self.bet_keys@.len(),
                self.bet_keys@.contains(key),
                forall|i: int| 0 <= i < at ==> self.bet_keys@[i] != key,
            decreases len - at,
        {
            proof {
                let w = self.bet_keys@.index_of(key);
                assert(self.bet_keys@[w] == key);
                assert(w > at);
            }
            at = at + 1;
        }
        assert(at == self.bet_keys@.index_of(key)) by {
            let w = self.bet_keys@.index_of(key);
            assert(self.bet_keys@[w] == key);
        }
        self.bet_keys.remove(at);
        self.bets.remove(&key);
    }

    /// Marks the user's bet on `round_number` of `tier` as paid out, if there is one.
    pub fn mark_claimed(&mut self, tier: i8, round_number: u32)
        requires
            old(self)@.wf(),
        ensures
            final(self)@ == old(self)@.with_claimed(tier, round_number),
            final(self)@.wf(),
    {
        proof {
            self@.lemma_with_claimed_wf(tier, round_number);
        }
        match self.get_bet(tier, round_number) {
            Some(bet) => {
                let key = mapping_key(tier, round_number);
                self.bets.insert(key, UserBetStruct { claimed_reward: true, ..bet });
            },
            None => {},
        }
    }

    /// The bets in the order they were placed.
    pub fn history(&self) -> (bets: Vec<UserBetStruct>)
        requires
            self@.wf(),
        ensures
            bets@ == self@.history(),
    {
        let mut out: Vec<UserBetStruct> = Vec::new();
        let mut i: usize = 0;
        while i < self.bet_keys.len()
            invariant
                i <= self.bet_keys@.len(),
                self@.wf(),
                out@ == self@.history().take(i as int),
            decreases self.bet_keys@.len() - i,
        {
            let key = self.bet_keys[i];
            assert(self.bet_keys@.contains(key));
            match self.bets.get(&key) {
                Some(bet) => {
                    out.push(*bet);
                },
                None => {},
            }
            assert(out@ =~= self@.history().take(i + 1));
            i = i + 1;
        }
        assert(self@.history().take(i as int) =~= self@.history());
        out
    }

    /// Builds the collection that holds `placed` in the given order.
    ///
    /// Returns `None` when two of the bets are on the same tier and round.
    pub fn from_bets(placed: &Vec<UserBetStruct>) -> (bets: Option<UserBetsStruct>)
        ensures
            match bets {
                Some(b) => b@.wf() && b@.history() == placed@,
                None => exists|i: int, j: int|
                    0 <= i < j < placed@.len() && placed@[i].key() == placed@[j].key(),
            },
    {
        let mut out = UserBetsStruct::new();
        let mut i: usize = 0;
        while i < placed.len()
            invariant
                i <= placed@.len(),
                out@.wf(),
                out@.history() == placed@.take(i as int),
            decreases placed@.len() - i,
        {
            let bet = placed[i];
            let ghost before = out@;
            assert(before.bet_keys.len() == before.history().len() == i);
            if out.get_bet(bet.tier, bet.round_number).is_some() {
                proof {
                    let key = bet.key();
                    assert(before.bet_keys.contains(key));
                    let w = before.bet_keys.index_of(key);
                    assert(0 <= w < i && before.bet_keys[w] == key);
                    assert(before.history()[w].key() == key);
                    assert(placed@.take(i as int)[w] == placed@[w]);
                }
                return None;
            }
            out.record(bet);
            proof {
                assert(out@.history().len() == i + 1);
                assert forall|k: int| 0 <= k < i + 1 implies out@.history()[k] == placed@[k] by {
                    if k < i {
                        assert(before.history()[k] == placed@.take(i as int)[k]);
                        assert(before.bet_keys[k] != bet.key()) by {
                            assert(before.bet_keys.contains(before.bet_keys[k]));
                        }
                    }
                }
                assert(out@.history() =~= placed@.take(i + 1));
            }
            i = i + 1;
        }
        assert(placed@.take(i as int) =~= placed@);
        Some(out)
    }

    /// Whether the collection satisfies [`UserBetsView::wf`].
    pub fn is_wf(&self) -> (ok: bool)
        ensures
            ok == self@.wf(),
    {
        let len = self.bet_keys.len();
        if self.bets.len() != len {
            proof {
                if self@.wf() {
                    lemma_listed_keys_are_the_domain(self@);
                }
            }
            return false;
        }
        let mut i: usize = 0;
        while i < len
            invariant
                i <= len,
                len == self.bet_keys@.len(),
                forall|a: int, b: int| 0 <= a < b < i ==> self.bet_keys@[a] != self.bet_keys@[b],
                forall|a: int|
                    0 <= a < i ==> self.bets@.contains_key(#[trigger] self.bet_keys@[a])
                        && self.bets@[self.bet_keys@[a]].key() == self.bet_keys@[a],
            decreases len - i,
        {
            let key = self.bet_keys[i];
            let mut j: usize = 0;
            while j < i
                invariant
                    j <= i < len,
                    len == self.bet_keys@.len(),
                    key == self.bet_keys@[i as int],
                    forall|a: int| 0 <= a < j ==> self.bet_keys@[a] != key,
                decreases i - j,
            {
                if self.bet_keys[j] == key {
                    return false;
                }
                j = j + 1;
            }
            match self.bets.get(&key) {
                Some(bet) => {
                    if mapping_key(bet.tier, bet.round_number) != key {
                        assert(self.bet_keys@.contains(key));
                        return false;
                    }
                },
                None => {
                    assert(self.bet_keys@.contains(key));
                    return false;
                },
            }
            i = i + 1;
        }
        proof {
            let keys = self.bet_keys@;
            assert(keys.no_duplicates());
            keys.unique_seq_to_set();
            assert(keys.to_set().subset_of(self.bets@.dom())) by {
                assert forall|k: u64| keys.to_set().contains(k) implies self.bets@.dom().contains(
                    k,
                ) by {
                    let w = keys.index_of(k);
                    assert(keys[w] == k);
                }
            }
            vstd::set_lib::lemma_subset_equality(keys.to_set(), self.bets@.dom());
            assert forall|k: u64| self.bets@.contains_key(k) implies self.bets@[k].key() == k by {
                assert(keys.to_set().contains(k));
                let w = keys.index_of(k);
                assert(keys[w] == k);
            }
        }
        true
    }
}

/// In a well-formed collection the map holds as many bets as keys are listed.
proof fn lemma_listed_keys_are_the_domain(bets: UserBetsView)
    requires
        bets.wf(),
        bets.bets.dom().finite(),
    ensures
        bets.bets.dom().len() == bets.bet_keys.len(),
{
    bets.bet_keys.unique_seq_to_set();
    assert(bets.bet_keys.to_set() =~= bets.bets.dom());
}

/// Whether `tier` names one of the configured tiers.
pub open spec fn valid_tier(tier: i8) -> bool {
    1 <= tier <= TIER_COUNT
}

/// Identities, token reference and entropy material of the lottery.
#[derive(Clone, Debug, PartialEq)]
pub struct ConfigState {
    /// The identity that may change the configuration.
    pub owner: String,
    /// The identity that may trigger draws and receives the trigger fees.
    pub triggerer: String,
    /// Address of the token the lottery is played with.
    pub token_address: String,
    /// Code hash of that token.
    pub token_hash: String,
    /// Seed from which viewing keys are derived.
    pub prng_seed: Vec<u8>,
    /// The entropy given at creation, fixed for the life of the lottery.
    pub base_entropy: [u8; 8],
    /// The numbers of the most recent bets, oldest first.
    pub addition_entropy: Vec<u64>,
}

/// Mathematical model of a [`ConfigState`].
#[verifier::ext_equal]
pub struct ConfigView {
    pub owner: Seq<char>,
    pub triggerer: Seq<char>,
    pub token_address: Seq<char>,
    pub token_hash: Seq<char>,
    pub prng_seed: Seq<u8>,
    pub base_entropy: Seq<u8>,
    pub addition_entropy: Seq<u64>,
}

impl View for ConfigState {
    type V = ConfigView;

    open spec fn view(&self) -> ConfigView {
        ConfigView {
            owner: self.owner@,
            triggerer: self.triggerer@,
            token_address: self.token_address@,
            token_hash: self.token_hash@,
            prng_seed: self.prng_seed@,
            base_entropy: self.base_entropy@,
            addition_entropy: self.addition_entropy@,
        }
    }
}

impl ConfigView {
    /// The buffer of recent picks never exceeds its capacity.
    pub open spec fn wf(self) -> bool {
        &&& self.base_entropy.len() == 8
        &&& self.addition_entropy.len() <= ENTROPY_CAPACITY
    }
}

/// The whole state of the lottery apart from the users' own records.
#[derive(Clone, Debug, PartialEq)]
pub struct LotteryState {
    pub config: ConfigState,
    /// The tiers; tier `n` is at index `n - 1`.
    pub tiers: Vec<TierState>,
}

/// Mathematical model of a [`LotteryState`].
#[verifier::ext_equal]
pub struct LotteryView {
    pub config: ConfigView,
    pub tiers: Seq<TierView>,
}

impl View for LotteryState {
    type V = LotteryView;

    open spec fn view(&self) -> LotteryView {
        LotteryView { config: self.config@, tiers: self.tiers@.map_values(|t: TierState| t@) }
    }
}

impl LotteryView {
    /// The tier with id `tier`.
    pub open spec fn tier(self, tier: i8) -> TierView
        recommends
            valid_tier(tier),
            self.tiers.len() == TIER_COUNT,
    {
        self.tiers[tier - 1]
    }

    /// The state holds exactly the configured number of tiers, each with a
    /// well-formed ledger, and a well-formed configuration.
    pub open spec fn wf(self) -> bool {
        &&& self.config.wf()
        &&& self.tiers.len() == TIER_COUNT
        &&& forall|i: int| 0 <= i < self.tiers.len() ==> (#[trigger] self.tiers[i]).wf()
    }
}

impl LotteryState {
    /// Whether the state satisfies [`LotteryView::wf`].
    pub fn is_wf(&self) -> (ok: bool)
        ensures
            ok == self@.wf(),
    {
        if self.config.addition_entropy.len() > ENTROPY_CAPACITY || self.tiers.len()
            != TIER_COUNT {
            return false;
        }
        let mut i: usize = 0;
        while i < TIER_COUNT
            invariant
                i <= TIER_COUNT,
                self.tiers@.len() == TIER_COUNT,
                forall|k: int| 0 <= k < i ==> (#[trigger] self@.tiers[k]).wf(),
            decreases TIER_COUNT - i,
        {
            assert(self@.tiers[i as int] == self.tiers[i as int]@);
            if !self.tiers[i].is_wf() {
                return false;
            }
            i = i + 1;
        }
        true
    }
}

/// What the lottery keeps for one user.
#[derive(Clone, Debug, PartialEq)]
pub struct UserRecord {
    /// The user's bets.
    pub bets: UserBetsStruct,
    /// Digest of the user's viewing key, once one was created or set.
    pub viewing_key: Option<[u8; 32]>,
}

impl UserRecord {
    /// The record of a user the lottery has not seen yet.
    pub fn new() -> (record: UserRecord)
        ensures
            record.bets@ == UserBetsView::empty(),
            record.bets@.wf(),
            record.viewing_key is None,
    {
        UserRecord { bets: UserBetsStruct::new(), viewing_key: None }
    }
}

} // verus!
