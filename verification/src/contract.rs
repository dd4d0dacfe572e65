//! The entry points of the lottery.

use vstd::prelude::*;

use vstd::utf8::encode_utf8;

use crate::crypto::{base64_encode, base64_text, gen_range, rng_from_seed, sha256_digest, sha_256};
use crate::encoding::{append_bytes, be_bytes, decimal_string, decimal_text, to_be_bytes};
use crate::entropy::{draw_seed, entropy_pushed, push_entropy};
use crate::error::ContractError;
use crate::msg::{
    DrawOutcome, Env, HandleAnswer, HandleMsg, HandleResponse, InitMsg, InitResponse,
    ResponseStatus, Snip20Msg, TierConfig, TransferInstruction,
};
use crate::state::{
    valid_tier, ConfigState, ConfigView, LotteryState, LotteryView, TierState,
    TierView, UserBetStruct, UserBetsStruct, UserBetsView, UserRecord, TIER_COUNT,
};
use crate::viewing_key::{key_hash, key_material, key_text, ViewingKey};

verus! {

/// Whether the flags of a trigger call select the tier at index `i`.
pub open spec fn selects(tier1: bool, tier2: bool, tier3: bool, i: int) -> bool {
    (i == 0 && tier1) || (i == 1 && tier2) || (i == 2 && tier3)
}

fn is_selected(tier1: bool, tier2: bool, tier3: bool, i: usize) -> (yes: bool)
    ensures
        yes == selects(tier1, tier2, tier3, i as int),
{
    (i == 0 && tier1) || (i == 1 && tier2) || (i == 2 && tier3)
}

impl TierView {
    /// Why the open round cannot be closed whatever number is drawn, if it
    /// cannot: the round has no number to draw, its pool does not hold the
    /// triggerer fee, or the ledger is full.
    pub open spec fn draw_error(self) -> Option<ContractError> {
        if self.current().picks.len() == 0 {
            Some(ContractError::NumberOutOfRange)
        } else if self.current().pool_size < self.config.triggerer_fee {
            Some(ContractError::Underflow)
        } else if self.rounds.len() >= u32::MAX {
            Some(ContractError::Overflow)
        } else {
            None
        }
    }
}

impl LotteryView {
    /// Whether a trigger call with the given flags draws the tier at index `i`:
    /// the tier is selected and its pool has reached the threshold.
    pub open spec fn draws(self, tier1: bool, tier2: bool, tier3: bool, i: int) -> bool {
        selects(tier1, tier2, tier3, i) && self.tiers[i].ready()
    }

    /// The error of the first tier, in tier order from index `from`, that the
    /// call would draw and cannot close.
    pub open spec fn first_draw_error(
        self,
        tier1: bool,
        tier2: bool,
        tier3: bool,
        from: int,
    ) -> Option<ContractError>
        decreases TIER_COUNT - from,
    {
        if from < 0 || from >= TIER_COUNT {
            None
        } else if self.draws(tier1, tier2, tier3, from) && self.tiers[from].draw_error() is Some {
            self.tiers[from].draw_error()
        } else {
            self.first_draw_error(tier1, tier2, tier3, from + 1)
        }
    }

    /// Why a trigger call by `sender` is refused as a whole, if it is.
    pub open spec fn trigger_error(
        self,
        sender: Seq<char>,
        tier1: bool,
        tier2: bool,
        tier3: bool,
    ) -> Option<ContractError> {
        if sender != self.config.triggerer {
            Some(ContractError::NotTriggerer)
        } else {
            self.first_draw_error(tier1, tier2, tier3, 0)
        }
    }
}

/// What a successful trigger call leaves of one tier, given its outcome.
pub open spec fn tier_outcome(
    before: TierView,
    after: TierView,
    drawn: bool,
    outcome: DrawOutcome,
    triggerer: Seq<char>,
    time: u64,
) -> bool {
    if drawn {
        &&& outcome matches DrawOutcome::Drawn { lucky_number, transfer }
        &&& 1 <= lucky_number <= before.current().picks.len()
        &&& transfer.recipient@ == triggerer
        &&& transfer.amount == before.config.triggerer_fee
        &&& after == before.drawn(lucky_number, time)
    } else {
        &&& outcome is Skipped
        &&& after == before
    }
}

/// Draws the lucky number of every selected tier whose pool has reached its threshold.
///
/// Only the triggerer may call. The generator is seeded once from the
/// aggregated entropy; the tiers consume its output in tier order. A tier that
/// is not selected or is below its threshold is skipped and left untouched.
/// If any tier that would be drawn cannot be closed, because its round has no
/// number to draw, its pool does not hold the fee or its ledger is full, the
/// whole call fails and nothing changes. Each lucky number lies within the numbers of the round it
/// closes; which of them it is depends on the generator alone.
pub fn try_trigger_lucky_number(
    state: &mut LotteryState,
    env: &Env,
    tier1: bool,
    tier2: bool,
    tier3: bool,
    entropy: u64,
) -> (result: Result<Vec<DrawOutcome>, ContractError>)
    requires
        old(state)@.wf(),
    ensures
        match result {
            Ok(outcomes) => {
                &&& old(state)@.trigger_error(env.sender@, tier1, tier2, tier3) is None
                &&& outcomes@.len() == TIER_COUNT
                &&& final(state)@.tiers.len() == TIER_COUNT
                &&& forall|i: int|
                    0 <= i < TIER_COUNT ==> tier_outcome(
                        old(state)@.tiers[i],
                        #[trigger] final(state)@.tiers[i],
                        old(state)@.draws(tier1, tier2, tier3, i),
                        outcomes@[i],
                        old(state)@.config.triggerer,
                        env.time,
                    )
                &&& final(state).config == old(state).config
                &&& final(state)@.wf()
            },
            Err(e) => {
                &&& old(state)@.trigger_error(env.sender@, tier1, tier2, tier3) == Some(e)
                &&& *final(state) == *old(state)
            },
        },
{
    if env.sender != state.config.triggerer {
        return Err(ContractError::NotTriggerer);
    }
    let mut i: usize = 0;
    while i < TIER_COUNT
        invariant
            i <= TIER_COUNT,
            *state == *old(state),
            state@.wf(),
            env.sender@ == state@.config.triggerer,
            state@.first_draw_error(tier1, tier2, tier3, 0) == state@.first_draw_error(
                tier1,
                tier2,
                tier3,
                i as int,
            ),
            forall|k: int|
                0 <= k < i && state@.draws(tier1, tier2, tier3, k)
                    ==> (#[trigger] state@.tiers[k]).draw_error() is None,
        decreases TIER_COUNT - i,
    {
        let tier = &state.tiers[i];
        assert(state@.tiers[i as int] == tier@);
        assert(tier@.wf());
        let last = tier.rounds.len() - 1;
        assert(tier@.rounds[last as int] == tier.rounds[last as int]@);
        assert(tier@.current().wf());
        if is_selected(tier1, tier2, tier3, i) && tier.config.threshold_met(
            tier.rounds[last].pool_size,
        ) {
            if tier.rounds[last].users_picked_numbers_count.len() == 0 {
                return Err(ContractError::NumberOutOfRange);
            }
            if tier.rounds[last].pool_size < tier.config.triggerer_fee {
                return Err(ContractError::Underflow);
            }
            if tier.rounds.len() >= u32::MAX as usize {
                return Err(ContractError::Overflow);
            }
        }
        i = i + 1;
    }
    let seed = draw_seed(&state.config, entropy);
    let mut rng = rng_from_seed(seed);
    let mut outcomes: Vec<DrawOutcome> = Vec::new();
    let mut i: usize = 0;
    while i < TIER_COUNT
        invariant
            i <= TIER_COUNT,
            old(state)@.wf(),
            old(state)@.trigger_error(env.sender@, tier1, tier2, tier3) is None,
            state.config == old(state).config,
            state.tiers@.len() == TIER_COUNT,
            outcomes@.len() == i,
            forall|k: int|
                0 <= k < TIER_COUNT && old(state)@.draws(tier1, tier2, tier3, k) ==> (
                #[trigger] old(state)@.tiers[k]).draw_error() is None,
            forall|k: int| i <= k < TIER_COUNT ==> #[trigger] state.tiers@[k] == old(state).tiers@[k],
            forall|k: int| 0 <= k < TIER_COUNT ==> (#[trigger] state@.tiers[k]).wf(),
            forall|k: int|
                0 <= k < i ==> tier_outcome(
                    old(state)@.tiers[k],
                    #[trigger] state@.tiers[k],
                    old(state)@.draws(tier1, tier2, tier3, k),
                    outcomes@[k],
                    old(state)@.config.triggerer,
                    env.time,
                ),
        decreases TIER_COUNT - i,
    {
        let ghost tiers_before = state@.tiers;
        assert(state@.tiers[i as int] == state.tiers@[i as int]@);
        assert(old(state)@.tiers[i as int] == old(state).tiers@[i as int]@);
        assert(state@.tiers[i as int].wf());
        let last = state.tiers[i].rounds.len() - 1;
        assert(state@.tiers[i as int].rounds[last as int] == state.tiers@[i as int].rounds@[last as int]@);
        let due = is_selected(tier1, tier2, tier3, i) && state.tiers[i].config.threshold_met(
            state.tiers[i].rounds[last].pool_size,
        );
        if due {
            let numbers = state.tiers[i].rounds[last].users_picked_numbers_count.len();
            let lucky_number = gen_range(&mut rng, 1, numbers as u64 + 1) as u32;
            let closed = state.tiers[i].close_round(lucky_number, env.time);
            match closed {
                Ok(fee) => {
                    let transfer = TransferInstruction {
                        recipient: state.config.triggerer.clone(),
                        amount: fee,
                    };
                    outcomes.push(DrawOutcome::Drawn { lucky_number, transfer });
                },
                Err(e) => {
                    assert(false);
                    return Err(e);
                },
            }
        } else {
            outcomes.push(DrawOutcome::Skipped);
        }
        proof {
            assert forall|k: int| 0 <= k < TIER_COUNT implies (#[trigger] state@.tiers[k]).wf() by {
                if k != i {
                    assert(state@.tiers[k] == tiers_before[k]);
                }
            }
            assert forall|k: int| 0 <= k < i + 1 implies tier_outcome(
                old(state)@.tiers[k],
                #[trigger] state@.tiers[k],
                old(state)@.draws(tier1, tier2, tier3, k),
                outcomes@[k],
                old(state)@.config.triggerer,
                env.time,
            ) by {
                if k < i {
                    assert(state@.tiers[k] == tiers_before[k]);
                }
            }
        }
        i = i + 1;
    }
    Ok(outcomes)
}

impl LotteryView {
    /// Why a bet of `amount` on `number` in `tier` by the holder of `bets` is
    /// refused, if it is. The checks are made in this order: tier, amount,
    /// number, duplicate, room in the counters.
    pub open spec fn bet_error(
        self,
        bets: UserBetsView,
        amount: u128,
        number: u32,
        tier: i8,
    ) -> Option<ContractError> {
        if !valid_tier(tier) {
            Some(ContractError::InvalidTier)
        } else if amount != self.tier(tier).config.entry_fee {
            Some(ContractError::InvalidAmount)
        } else if !(1 <= number <= self.tier(tier).config.max_rand_number && number
            <= self.tier(tier).current().picks.len()) {
            Some(ContractError::NumberOutOfRange)
        } else if bets.has_bet(tier, self.tier(tier).current().round_number) {
            Some(ContractError::AlreadyBet)
        } else if self.tier(tier).current().pool_size + amount > u128::MAX || self.tier(
            tier,
        ).current().users_count >= u32::MAX {
            Some(ContractError::Overflow)
        } else {
            None
        }
    }

    /// The record of a bet on `number` placed at `time` on the open round of `tier`.
    pub open spec fn new_bet(self, number: u32, tier: i8, time: u64) -> UserBetStruct {
        UserBetStruct {
            round_number: self.tier(tier).current().round_number,
            tier,
            number,
            claimed_reward: false,
            timestamp: time,
        }
    }

    /// The state after an accepted bet: the open round of `tier` counts the
    /// bet and holds its amount, and the number joins the recent picks.
    pub open spec fn with_bet(self, amount: u128, number: u32, tier: i8) -> LotteryView {
        LotteryView {
            config: ConfigView {
                addition_entropy: entropy_pushed(self.config.addition_entropy, number as u64),
                ..self.config
            },
            tiers: self.tiers.update(
                tier - 1,
                self.tier(tier).with_current(self.tier(tier).current().with_bet(number, amount)),
            ),
        }
    }
}

/// Places a bet of `amount` on `number` in the open round of `tier`.
///
/// `user_bets` is the record of the betting user. A refused bet changes nothing.
pub fn try_bet(
    state: &mut LotteryState,
    user_bets: &mut UserBetsStruct,
    env: &Env,
    amount: u128,
    number: u32,
    tier: i8,
) -> (result: Result<(), ContractError>)
    requires
        old(state)@.wf(),
        old(user_bets)@.wf(),
    ensures
        match result {
            Ok(()) => {
                &&& old(state)@.bet_error(old(user_bets)@, amount, number, tier) is None
                &&& final(state)@ == old(state)@.with_bet(amount, number, tier)
                &&& final(user_bets)@ == old(user_bets)@.with_bet(
                    old(state)@.new_bet(number, tier, env.time),
                )
                &&& final(state)@.wf()
                &&& final(user_bets)@.wf()
            },
            Err(e) => {
                &&& old(state)@.bet_error(old(user_bets)@, amount, number, tier) == Some(e)
                &&& *final(state) == *old(state)
                &&& *final(user_bets) == *old(user_bets)
            },
        },
{
    if tier < 1 || tier > 3 {
        return Err(ContractError::InvalidTier);
    }
    let index = (tier - 1) as usize;
    assert(state@.tiers[index as int] == state.tiers@[index as int]@);
    assert(state@.tiers[index as int].wf());
    let last = state.tiers[index].rounds.len() - 1;
    assert(state@.tiers[index as int].rounds[last as int]
        == state.tiers@[index as int].rounds@[last as int]@);
    assert(state@.tier(tier).current().wf());
    if amount != state.tiers[index].config.entry_fee {
        return Err(ContractError::InvalidAmount);
    }
    if number < 1 || number > state.tiers[index].config.max_rand_number || number as usize
        > state.tiers[index].rounds[last].users_picked_numbers_count.len() {
        return Err(ContractError::NumberOutOfRange);
    }
    let round_number = state.tiers[index].rounds[last].round_number;
    if user_bets.get_bet(tier, round_number).is_some() {
        return Err(ContractError::AlreadyBet);
    }
    if amount > u128::MAX - state.tiers[index].rounds[last].pool_size
        || state.tiers[index].rounds[last].users_count >= u32::MAX {
        return Err(ContractError::Overflow);
    }
    let ghost before = state@;
    state.tiers[index].rounds[last].place(number, amount);
    push_entropy(&mut state.config.addition_entropy, number as u64);
    user_bets.record(
        UserBetStruct { round_number, tier, number, claimed_reward: false, timestamp: env.time },
    );
    proof {
        let after = before.with_bet(amount, number, tier);
        assert(state@.tiers[index as int].rounds =~= after.tiers[index as int].rounds);
        assert(state@.tiers =~= after.tiers);
        assert(state@.config =~= after.config);
        assert forall|i: int| 0 <= i < state@.tiers.len() implies (#[trigger] state@.tiers[i]).wf() by {
            if i != index {
                assert(state@.tiers[i] == before.tiers[i]);
            } else {
                let t = state@.tiers[i];
                assert forall|k: int| 0 <= k < t.rounds.len() implies {
                    &&& (#[trigger] t.rounds[k]).wf()
                    &&& t.rounds[k].round_number == k
                    &&& (t.rounds[k].is_open() <==> k == t.rounds.len() - 1)
                } by {
                    if k != last {
                        assert(t.rounds[k] == before.tiers[i].rounds[k]);
                    }
                }
            }
        }
    }
    Ok(())
}

impl LotteryView {
    /// Why the settlement of the bet on `round` of `tier` is refused, if it is.
    ///
    /// The bet is looked up first, then its claim flag, then the round. On an
    /// open round the bet is cancelled, which needs the round to hold the bet
    /// and its refund; on a closed round the bet must be on the lucky number.
    pub open spec fn withdraw_error(self, bets: UserBetsView, tier: i8, round: u32) -> Option<
        ContractError,
    > {
        if !valid_tier(tier) {
            Some(ContractError::InvalidTier)
        } else if bets.bet_on(tier, round) is None {
            Some(ContractError::BetNotFound)
        } else if bets.bet_on(tier, round)->0.claimed_reward {
            Some(ContractError::AlreadyClaimed)
        } else if round >= self.tier(tier).rounds.len() {
            Some(ContractError::RoundNotFound)
        } else {
            let bet = bets.bet_on(tier, round)->0;
            let target = self.tier(tier).rounds[round as int];
            match target.lucky_number {
                None => if target.can_cancel(bet.number, self.tier(tier).config.entry_fee) {
                    None
                } else {
                    Some(ContractError::Underflow)
                },
                Some(lucky) => if lucky != bet.number {
                    Some(ContractError::NotWinner)
                } else if target.winner_count->0 == 0 {
                    Some(ContractError::DivideByZero)
                } else {
                    None
                },
            }
        }
    }

    /// Whether round `round` of `tier` exists and is still open.
    pub open spec fn round_open(self, tier: i8, round: u32) -> bool {
        &&& valid_tier(tier)
        &&& round < self.tier(tier).rounds.len()
        &&& self.tier(tier).rounds[round as int].is_open()
    }

    /// The amount a settlement pays: the entry fee for a cancelled bet, the
    /// winner's share of the final pool for a winning bet.
    pub open spec fn payout(self, tier: i8, round: u32) -> u128 {
        if self.round_open(tier, round) {
            self.tier(tier).config.entry_fee
        } else {
            self.tier(tier).rounds[round as int].reward()
        }
    }

    /// The state after a settlement: a cancelled bet leaves its open round,
    /// a paid reward changes no round.
    pub open spec fn settled(self, bets: UserBetsView, tier: i8, round: u32) -> LotteryView {
        if self.round_open(tier, round) {
            LotteryView {
                tiers: self.tiers.update(
                    tier - 1,
                    self.tier(tier).with_round(
                        round,
                        self.tier(tier).rounds[round as int].without_bet(
                            bets.bet_on(tier, round)->0.number,
                            self.tier(tier).config.entry_fee,
                        ),
                    ),
                ),
                ..self
            }
        } else {
            self
        }
    }
}

impl UserBetsView {
    /// The user's record after a settlement: a cancelled bet is deleted, a
    /// rewarded bet is kept and marked as paid out.
    pub open spec fn settled(self, open: bool, tier: i8, round: u32) -> UserBetsView {
        if open {
            self.without_bet(tier, round)
        } else {
            self.with_claimed(tier, round)
        }
    }
}

/// Settles the caller's bet on `round` of `tier`.
///
/// While the round is open the bet is cancelled and the entry fee refunded.
/// Once the round is closed a bet on the lucky number is paid its share of
/// the final pool, once. A refused settlement changes nothing.
pub fn try_withdrawl(
    state: &mut LotteryState,
    user_bets: &mut UserBetsStruct,
    env: &Env,
    tier: i8,
    round: u32,
) -> (result: Result<TransferInstruction, ContractError>)
    requires
        old(state)@.wf(),
        old(user_bets)@.wf(),
    ensures
        match result {
            Ok(transfer) => {
                &&& old(state)@.withdraw_error(old(user_bets)@, tier, round) is None
                &&& transfer.recipient@ == env.sender@
                &&& transfer.amount == old(state)@.payout(tier, round)
                &&& final(state)@ == old(state)@.settled(old(user_bets)@, tier, round)
                &&& final(user_bets)@ == old(user_bets)@.settled(
                    old(state)@.round_open(tier, round),
                    tier,
                    round,
                )
                &&& final(state)@.wf()
                &&& final(user_bets)@.wf()
            },
            Err(e) => {
                &&& old(state)@.withdraw_error(old(user_bets)@, tier, round) == Some(e)
                &&& *final(state) == *old(state)
                &&& *final(user_bets) == *old(user_bets)
            },
        },
{
    if tier < 1 || tier > 3 {
        return Err(ContractError::InvalidTier);
    }
    let index = (tier - 1) as usize;
    assert(state@.tiers[index as int] == state.tiers@[index as int]@);
    assert(state@.tiers[index as int].wf());
    let bet = match user_bets.get_bet(tier, round) {
        Some(bet) => bet,
        None => {
            return Err(ContractError::BetNotFound);
        },
    };
    if bet.claimed_reward {
        return Err(ContractError::AlreadyClaimed);
    }
    if round as usize >= state.tiers[index].rounds.len() {
        return Err(ContractError::RoundNotFound);
    }
    let at = round as usize;
    assert(state@.tiers[index as int].rounds[at as int]
        == state.tiers@[index as int].rounds@[at as int]@);
    assert(state@.tier(tier).rounds[round as int].wf());
    let ghost before = state@;
    let amount = match state.tiers[index].rounds[at].lucky_number {
        None => {
            let refund = state.tiers[index].config.entry_fee;
            if state.tiers[index].rounds[at].picked(bet.number) < 1
                || state.tiers[index].rounds[at].users_count < 1
                || state.tiers[index].rounds[at].pool_size < refund {
                return Err(ContractError::Underflow);
            }
            state.tiers[index].rounds[at].cancel(bet.number, refund);
            user_bets.remove_bet(tier, round);
            proof {
                let after = before.settled(old(user_bets)@, tier, round);
                assert(state@.tiers[index as int].rounds =~= after.tiers[index as int].rounds);
                assert(state@.tiers =~= after.tiers);
                assert forall|i: int| 0 <= i < state@.tiers.len() implies (
                #[trigger] state@.tiers[i]).wf() by {
                    if i != index {
                        assert(state@.tiers[i] == before.tiers[i]);
                    } else {
                        let t = state@.tiers[i];
                        assert forall|k: int| 0 <= k < t.rounds.len() implies {
                            &&& (#[trigger] t.rounds[k]).wf()
                            &&& t.rounds[k].round_number == k
                            &&& (t.rounds[k].is_open() <==> k == t.rounds.len() - 1)
                        } by {
                            if k != at {
                                assert(t.rounds[k] == before.tiers[i].rounds[k]);
                            }
                        }
                    }
                }
            }
            refund
        },
        Some(lucky) => {
            if lucky != bet.number {
                return Err(ContractError::NotWinner);
            }
            let (end_pool, winners) = match (
                state.tiers[index].rounds[at].round_end_pool_size,
                state.tiers[index].rounds[at].winner_count,
            ) {
                (Some(end_pool), Some(winners)) => (end_pool, winners),
                _ => {
                    assert(false);
                    return Err(ContractError::RoundNotFound);
                },
            };
            if winners == 0 {
                return Err(ContractError::DivideByZero);
            }
            user_bets.mark_claimed(tier, round);
            end_pool / winners as u128
        },
    };
    Ok(TransferInstruction { recipient: env.sender.clone(), amount })
}

/// The seed for viewing keys that is derived from the entropy given at creation.
pub open spec fn seed_of_entropy(entropy: u64) -> Seq<u8> {
    sha256_digest(encode_utf8(base64_text(decimal_text(entropy as nat))))
}

/// The state in which the lottery starts: `owner` owns it, every tier has
/// its round 0 open and empty, and no pick is buffered.
pub open spec fn initial_state(owner: Seq<char>, msg: InitMsg) -> LotteryView {
    LotteryView {
        config: ConfigView {
            owner,
            triggerer: msg.triggerer_address@,
            token_address: msg.token_address@,
            token_hash: msg.token_hash@,
            prng_seed: seed_of_entropy(msg.entropy),
            base_entropy: be_bytes(msg.entropy),
            addition_entropy: Seq::empty(),
        },
        tiers: Seq::new(TIER_COUNT as nat, |i: int| TierView::initial(msg.tier_config(i))),
    }
}

/// Creates the lottery. The caller becomes its owner. Every message is
/// accepted; a tier configured without numbers starts with a round that
/// takes no bet.
///
/// Besides the state, returns the registration to send to the token so that
/// the token notifies the lottery of transfers.
pub fn init(env: &Env, msg: InitMsg) -> (created: (LotteryState, InitResponse))
    ensures
        created.0@ == initial_state(env.sender@, msg),
        created.0@.wf(),
        created.1.register matches Snip20Msg::RegisterReceive { code_hash, padding }
            && code_hash@ == env.contract_code_hash@ && padding is None,
        created.1.token_address@ == msg.token_address@,
        created.1.token_hash@ == msg.token_hash@,
{
    let mut tiers: Vec<TierState> = Vec::new();
    let mut i: usize = 0;
    while i < TIER_COUNT
        invariant
            i <= TIER_COUNT,
            tiers@.len() == i,
            forall|k: int|
                0 <= k < i ==> {
                    &&& (#[trigger] tiers@[k])@ == TierView::initial(msg.tier_config(k))
                    &&& tiers@[k]@.wf()
                },
        decreases TIER_COUNT - i,
    {
        tiers.push(TierState::new(msg.config_of_tier(i)));
        i = i + 1;
    }
    let digits = decimal_string(msg.entropy);
    let encoded = base64_encode(digits.as_slice());
    let digest = sha_256(encoded.as_str().as_bytes());
    let mut prng_seed: Vec<u8> = Vec::new();
    append_bytes(&mut prng_seed, digest.as_slice());
    let response = InitResponse {
        register: Snip20Msg::register_receive(env.contract_code_hash.clone()),
        token_address: msg.token_address.clone(),
        token_hash: msg.token_hash.clone(),
    };
    let state = LotteryState {
        config: ConfigState {
            owner: env.sender.clone(),
            triggerer: msg.triggerer_address.clone(),
            token_address: msg.token_address.clone(),
            token_hash: msg.token_hash.clone(),
            prng_seed,
            base_entropy: to_be_bytes(msg.entropy),
            addition_entropy: Vec::new(),
        },
        tiers,
    };
    proof {
        let expected = initial_state(env.sender@, msg);
        assert forall|k: int| 0 <= k < TIER_COUNT implies state@.tiers[k] == expected.tiers[k] by {
            assert(state@.tiers[k] == tiers@[k]@);
        }
        assert(state@.tiers =~= expected.tiers);
        assert(state@.config.base_entropy.len() == 8);
        assert(state@.config =~= expected.config);
        assert forall|k: int| 0 <= k < state@.tiers.len() implies (#[trigger] state@.tiers[k]).wf() by {
            assert(state@.tiers[k] == tiers@[k]@);
        }
    }
    (state, response)
}

impl LotteryView {
    /// The state with `owner` as owner.
    pub open spec fn with_owner(self, owner: Seq<char>) -> LotteryView {
        LotteryView { config: ConfigView { owner, ..self.config }, ..self }
    }

    /// The state with `triggerer` as triggerer.
    pub open spec fn with_triggerer(self, triggerer: Seq<char>) -> LotteryView {
        LotteryView { config: ConfigView { triggerer, ..self.config }, ..self }
    }

    /// The state with `config` as configuration of `tier`; no round changes.
    pub open spec fn with_tier_config(self, tier: i8, config: TierConfig) -> LotteryView {
        LotteryView {
            tiers: self.tiers.update(tier - 1, TierView { config, ..self.tier(tier) }),
            ..self
        }
    }

    /// Why `sender` may not change the configuration of `tier`, if so.
    pub open spec fn change_tier_error(self, sender: Seq<char>, tier: i8) -> Option<ContractError> {
        if sender != self.config.owner {
            Some(ContractError::NotOwner)
        } else if !valid_tier(tier) {
            Some(ContractError::InvalidTier)
        } else {
            None
        }
    }
}

/// Hands the lottery over to `admin`. Only the owner may call.
pub fn try_change_admin(state: &mut LotteryState, env: &Env, admin: String) -> (result: Result<
    (),
    ContractError,
>)
    requires
        old(state)@.wf(),
    ensures
        match result {
            Ok(()) => {
                &&& env.sender@ == old(state)@.config.owner
                &&& final(state)@ == old(state)@.with_owner(admin@)
                &&& final(state)@.wf()
            },
            Err(e) => {
                &&& env.sender@ != old(state)@.config.owner
                &&& e == ContractError::NotOwner
                &&& *final(state) == *old(state)
            },
        },
{
    if env.sender != state.config.owner {
        return Err(ContractError::NotOwner);
    }
    state.config.owner = admin;
    Ok(())
}

/// Makes `triggerer` the identity that may trigger draws. Only the owner may call.
pub fn try_change_triggerer(state: &mut LotteryState, env: &Env, triggerer: String) -> (result:
    Result<(), ContractError>)
    requires
        old(state)@.wf(),
    ensures
        match result {
            Ok(()) => {
                &&& env.sender@ == old(state)@.config.owner
                &&& final(state)@ == old(state)@.with_triggerer(triggerer@)
                &&& final(state)@.wf()
            },
            Err(e) => {
                &&& env.sender@ != old(state)@.config.owner
                &&& e == ContractError::NotOwner
                &&& *final(state) == *old(state)
            },
        },
{
    if env.sender != state.config.owner {
        return Err(ContractError::NotOwner);
    }
    state.config.triggerer = triggerer;
    Ok(())
}

/// Replaces the configuration of `tier`. Only the owner may call, and every
/// configuration is accepted.
///
/// Rounds are not touched: the open round keeps the numbers it was opened with.
pub fn try_change_tier(
    state: &mut LotteryState,
    env: &Env,
    tier: i8,
    entry_fee: u128,
    triggerer_fee: u128,
    min_entries: u32,
    max_rand_number: u32,
) -> (result: Result<(), ContractError>)
    requires
        old(state)@.wf(),
    ensures
        ({
            let config = TierConfig { entry_fee, triggerer_fee, min_entries, max_rand_number };
            match result {
                Ok(()) => {
                    &&& old(state)@.change_tier_error(env.sender@, tier) is None
                    &&& final(state)@ == old(state)@.with_tier_config(tier, config)
                    &&& final(state)@.wf()
                },
                Err(e) => {
                    &&& old(state)@.change_tier_error(env.sender@, tier) == Some(e)
                    &&& *final(state) == *old(state)
                },
            }
        }),
{
    if env.sender != state.config.owner {
        return Err(ContractError::NotOwner);
    }
    if tier < 1 || tier > 3 {
        return Err(ContractError::InvalidTier);
    }
    let index = (tier - 1) as usize;
    let ghost before = state@;
    assert(before.tiers[index as int] == state.tiers@[index as int]@);
    state.tiers[index].config = TierConfig {
        entry_fee,
        triggerer_fee,
        min_entries,
        max_rand_number,
    };
    proof {
        let config = TierConfig { entry_fee, triggerer_fee, min_entries, max_rand_number };
        let after = before.with_tier_config(tier, config);
        assert(state@.tiers =~= after.tiers);
        assert forall|i: int| 0 <= i < state@.tiers.len() implies (#[trigger] state@.tiers[i]).wf() by {
            assert(before.tiers[i].wf());
            if i != index {
                assert(state@.tiers[i] == before.tiers[i]);
            }
        }
    }
    Ok(())
}

/// Creates a viewing key for the caller and stores its digest in the caller's record.
pub fn try_create_key(state: &LotteryState, user: &mut UserRecord, env: &Env, entropy: &str) -> (key:
    ViewingKey)
    ensures
        key.0@ == key_text(
            key_material(state@.config.prng_seed, env.height, env.time, env.sender@, entropy@),
        ),
        final(user).viewing_key matches Some(digest) && digest@ == key_hash(key.0@),
        final(user).bets == old(user).bets,
{
    let key = ViewingKey::new(env, state.config.prng_seed.as_slice(), entropy);
    user.viewing_key = Some(key.to_hashed());
    key
}

/// Stores the digest of the key the caller chose in the caller's record.
pub fn try_set_key(user: &mut UserRecord, key: String)
    ensures
        final(user).viewing_key matches Some(digest) && digest@ == key_hash(key@),
        final(user).bets == old(user).bets,
{
    let key = ViewingKey(key);
    user.viewing_key = Some(key.to_hashed());
}

impl LotteryView {
    /// Why a notification of `amount` received with the decoded call `msg` is
    /// refused, if it is. Only a bet may come with funds.
    pub open spec fn receive_error(
        self,
        bets: UserBetsView,
        amount: u128,
        msg: Option<HandleMsg>,
    ) -> Option<ContractError> {
        match msg {
            Some(HandleMsg::Receive { .. }) => Some(ContractError::RecursiveReceive),
            Some(HandleMsg::Bet { tier, number }) => self.bet_error(bets, amount, number, tier),
            _ => Some(ContractError::ReceiveHandlerNotFound),
        }
    }
}

/// Serves the token's notification that `from` sent `amount` for the call `msg`.
///
/// `msg` is the decoded call and `user_bets` the record of `from`. A bet is
/// placed for `from`; every other call is refused.
pub fn try_receive(
    state: &mut LotteryState,
    user_bets: &mut UserBetsStruct,
    env: &Env,
    _sender: String,
    from: String,
    amount: u128,
    msg: Option<HandleMsg>,
) -> (result: Result<(), ContractError>)
    requires
        old(state)@.wf(),
        old(user_bets)@.wf(),
    ensures
        match result {
            Ok(()) => {
                &&& old(state)@.receive_error(old(user_bets)@, amount, msg) is None
                &&& msg matches Some(HandleMsg::Bet { tier, number })
                &&& final(state)@ == old(state)@.with_bet(amount, number, tier)
                &&& final(user_bets)@ == old(user_bets)@.with_bet(
                    old(state)@.new_bet(number, tier, env.time),
                )
                &&& final(state)@.wf()
                &&& final(user_bets)@.wf()
            },
            Err(e) => {
                &&& old(state)@.receive_error(old(user_bets)@, amount, msg) == Some(e)
                &&& *final(state) == *old(state)
                &&& *final(user_bets) == *old(user_bets)
            },
        },
{
    match msg {
        Some(HandleMsg::Receive { .. }) => Err(ContractError::RecursiveReceive),
        Some(HandleMsg::Bet { tier, number }) => try_bet(
            state,
            user_bets,
            env,
            amount,
            number,
            tier,
        ),
        _ => Err(ContractError::ReceiveHandlerNotFound),
    }
}

/// The user whose record the call `msg` reads and writes: the sender of the
/// funds for a receive notification, the caller otherwise.
pub fn account_of(msg: &HandleMsg, env: &Env) -> (account: String)
    ensures
        account@ == match *msg {
            HandleMsg::Receive { from, .. } => from@,
            _ => env.sender@,
        },
{
    match msg {
        HandleMsg::Receive { from, .. } => from.clone(),
        _ => env.sender.clone(),
    }
}

/// Why the call `msg` by the sender of `env` is refused, if it is. `payload`
/// is the decoded call inside a receive notification.
pub open spec fn handle_error(
    state: LotteryView,
    bets: UserBetsView,
    env: Env,
    msg: HandleMsg,
    payload: Option<HandleMsg>,
) -> Option<ContractError> {
    match msg {
        HandleMsg::Receive { amount, .. } => state.receive_error(bets, amount, payload),
        HandleMsg::Bet { .. } => Some(ContractError::HandlerNotFound),
        HandleMsg::CreateViewingKey { .. } => None,
        HandleMsg::SetViewingKey { .. } => None,
        HandleMsg::Withdrawl { tier, round } => state.withdraw_error(bets, tier, round),
        HandleMsg::ChangeAdmin { .. } => if env.sender@ != state.config.owner {
            Some(ContractError::NotOwner)
        } else {
            None
        },
        HandleMsg::ChangeTriggerer { .. } => if env.sender@ != state.config.owner {
            Some(ContractError::NotOwner)
        } else {
            None
        },
        HandleMsg::ChangeTier { tier, .. } => state.change_tier_error(env.sender@, tier),
        HandleMsg::TriggerLuckyNumber { tier1, tier2, tier3, .. } => state.trigger_error(
            env.sender@,
            tier1,
            tier2,
            tier3,
        ),
    }
}

/// What an accepted call `msg` leaves behind and hands back.
pub open spec fn handle_effect(
    before: LotteryView,
    user_before: UserRecord,
    after: LotteryView,
    user_after: UserRecord,
    env: Env,
    msg: HandleMsg,
    payload: Option<HandleMsg>,
    response: HandleResponse,
) -> bool {
    match msg {
        HandleMsg::Receive { amount, .. } => {
            &&& payload matches Some(HandleMsg::Bet { tier, number })
            &&& after == before.with_bet(amount, number, tier)
            &&& user_after.bets@ == user_before.bets@.with_bet(
                before.new_bet(number, tier, env.time),
            )
            &&& user_after.viewing_key == user_before.viewing_key
            &&& response.messages@.len() == 0
            &&& response.draws@.len() == 0
            &&& response.data is None
        },
        HandleMsg::Bet { .. } => false,
        HandleMsg::CreateViewingKey { entropy, .. } => {
            &&& after == before
            &&& user_after.bets == user_before.bets
            &&& response.data matches Some(HandleAnswer::ViewingKey { key })
            &&& key@ == key_text(
                key_material(before.config.prng_seed, env.height, env.time, env.sender@, entropy@),
            )
            &&& user_after.viewing_key matches Some(digest)
            &&& digest@ == key_hash(key@)
            &&& response.messages@.len() == 0
            &&& response.draws@.len() == 0
        },
        HandleMsg::SetViewingKey { key, .. } => {
            &&& after == before
            &&& user_after.bets == user_before.bets
            &&& user_after.viewing_key matches Some(digest)
            &&& digest@ == key_hash(key@)
            &&& response.data matches Some(HandleAnswer::Status { status, message })
            &&& status == ResponseStatus::Success
            &&& message is None
            &&& response.messages@.len() == 0
            &&& response.draws@.len() == 0
        },
        HandleMsg::Withdrawl { tier, round } => {
            &&& after == before.settled(user_before.bets@, tier, round)
            &&& user_after.bets@ == user_before.bets@.settled(
                before.round_open(tier, round),
                tier,
                round,
            )
            &&& user_after.viewing_key == user_before.viewing_key
            &&& response.messages@.len() == 1
            &&& response.messages@[0].recipient@ == env.sender@
            &&& response.messages@[0].amount == before.payout(tier, round)
            &&& response.draws@.len() == 0
            &&& response.data matches Some(HandleAnswer::Status { status, message })
            &&& status == ResponseStatus::Success
            &&& message is None
        },
        HandleMsg::ChangeAdmin { admin } => {
            &&& after == before.with_owner(admin@)
            &&& user_after == user_before
            &&& response.messages@.len() == 0
            &&& response.draws@.len() == 0
            &&& response.data is None
        },
        HandleMsg::ChangeTriggerer { triggerer } => {
            &&& after == before.with_triggerer(triggerer@)
            &&& user_after == user_before
            &&& response.messages@.len() == 0
            &&& response.draws@.len() == 0
            &&& response.data is None
        },
        HandleMsg::ChangeTier { tier, entry_fee, triggerer_fee, min_entries, max_rand_number } => {
            &&& after == before.with_tier_config(
                tier,
                TierConfig { entry_fee, triggerer_fee, min_entries, max_rand_number },
            )
            &&& user_after == user_before
            &&& response.messages@.len() == 0
            &&& response.draws@.len() == 0
            &&& response.data is None
        },
        HandleMsg::TriggerLuckyNumber { tier1, tier2, tier3, .. } => {
            &&& after.config == before.config
            &&& after.tiers.len() == TIER_COUNT
            &&& response.draws@.len() == TIER_COUNT
            &&& forall|i: int|
                0 <= i < TIER_COUNT ==> tier_outcome(
                    before.tiers[i],
                    #[trigger] after.tiers[i],
                    before.draws(tier1, tier2, tier3, i),
                    response.draws@[i],
                    before.config.triggerer,
                    env.time,
                )
            &&& response.messages@ == transfers_of(response.draws@)
            &&& user_after == user_before
            &&& response.data is None
        },
    }
}

/// The transfers that the outcomes of a trigger call order, in tier order.
pub open spec fn transfers_of(draws: Seq<DrawOutcome>) -> Seq<TransferInstruction>
    decreases draws.len(),
{
    if draws.len() == 0 {
        Seq::empty()
    } else {
        match draws.last() {
            DrawOutcome::Skipped => transfers_of(draws.drop_last()),
            DrawOutcome::Drawn { transfer, .. } => transfers_of(draws.drop_last()).push(transfer),
        }
    }
}

/// Collects the transfers that `draws` order.
pub fn collect_transfers(draws: &Vec<DrawOutcome>) -> (transfers: Vec<TransferInstruction>)
    ensures
        transfers@ == transfers_of(draws@),
{
    let mut transfers: Vec<TransferInstruction> = Vec::new();
    let mut i: usize = 0;
    while i < draws.len()
        invariant
            i <= draws@.len(),
            transfers@ == transfers_of(draws@.take(i as int)),
        decreases draws@.len() - i,
    {
        assert(draws@.take(i + 1).drop_last() =~= draws@.take(i as int));
        match &draws[i] {
            DrawOutcome::Skipped => {},
            DrawOutcome::Drawn { transfer, .. } => {
                transfers.push(
                    TransferInstruction {
                        recipient: transfer.recipient.clone(),
                        amount: transfer.amount,
                    },
                );
            },
        }
        i = i + 1;
    }
    assert(draws@.take(i as int) =~= draws@);
    transfers
}

/// Serves one state-changing call.
///
/// `user` is the record of the user the call is about: the sender of the
/// funds for a receive notification, the caller otherwise. `payload` is the
/// decoded call inside a receive notification. A refused call changes nothing.
pub fn handle(
    state: &mut LotteryState,
    user: &mut UserRecord,
    env: &Env,
    msg: HandleMsg,
    payload: Option<HandleMsg>,
) -> (result: Result<HandleResponse, ContractError>)
    requires
        old(state)@.wf(),
        old(user).bets@.wf(),
    ensures
        match result {
            Ok(response) => {
                &&& handle_error(old(state)@, old(user).bets@, *env, msg, payload) is None
                &&& handle_effect(
                    old(state)@,
                    *old(user),
                    final(state)@,
                    *final(user),
                    *env,
                    msg,
                    payload,
                    response,
                )
                &&& final(state)@.wf()
                &&& final(user).bets@.wf()
            },
            Err(e) => {
                &&& handle_error(old(state)@, old(user).bets@, *env, msg, payload) == Some(e)
                &&& *final(state) == *old(state)
                &&& *final(user) == *old(user)
            },
        },
{
    match msg {
        HandleMsg::Receive { sender, from, amount, msg: _ } => {
            match try_receive(state, &mut user.bets, env, sender, from, amount, payload) {
                Ok(()) => Ok(
                    HandleResponse { messages: Vec::new(), draws: Vec::new(), data: None },
                ),
                Err(e) => Err(e),
            }
        },
        HandleMsg::Bet { .. } => Err(ContractError::HandlerNotFound),
        HandleMsg::CreateViewingKey { entropy, padding: _ } => {
            let key = try_create_key(state, user, env, entropy.as_str());
            Ok(
                HandleResponse {
                    messages: Vec::new(),
                    draws: Vec::new(),
                    data: Some(HandleAnswer::ViewingKey { key: key.0 }),
                },
            )
        },
        HandleMsg::SetViewingKey { key, padding: _ } => {
            try_set_key(user, key);
            Ok(
                HandleResponse {
                    messages: Vec::new(),
                    draws: Vec::new(),
                    data: Some(
                        HandleAnswer::Status { status: ResponseStatus::Success, message: None },
                    ),
                },
            )
        },
        HandleMsg::Withdrawl { tier, round } => {
            match try_withdrawl(state, &mut user.bets, env, tier, round) {
                Ok(transfer) => {
                    let mut messages: Vec<TransferInstruction> = Vec::new();
                    messages.push(transfer);
                    Ok(
                        HandleResponse {
                            messages,
                            draws: Vec::new(),
                            data: Some(
                                HandleAnswer::Status {
                                    status: ResponseStatus::Success,
                                    message: None,
                                },
                            ),
                        },
                    )
                },
                Err(e) => Err(e),
            }
        },
        HandleMsg::ChangeAdmin { admin } => {
            match try_change_admin(state, env, admin) {
                Ok(()) => Ok(
                    HandleResponse { messages: Vec::new(), draws: Vec::new(), data: None },
                ),
                Err(e) => Err(e),
            }
        },
        HandleMsg::ChangeTriggerer { triggerer } => {
            match try_change_triggerer(state, env, triggerer) {
                Ok(()) => Ok(
                    HandleResponse { messages: Vec::new(), draws: Vec::new(), data: None },
                ),
                Err(e) => Err(e),
            }
        },
        HandleMsg::ChangeTier { tier, entry_fee, triggerer_fee, min_entries, max_rand_number } => {
            match try_change_tier(
                state,
                env,
                tier,
                entry_fee,
                triggerer_fee,
                min_entries,
                max_rand_number,
            ) {
                Ok(()) => Ok(
                    HandleResponse { messages: Vec::new(), draws: Vec::new(), data: None },
                ),
                Err(e) => Err(e),
            }
        },
        HandleMsg::TriggerLuckyNumber { tier1, tier2, tier3, entropy } => {
            match try_trigger_lucky_number(state, env, tier1, tier2, tier3, entropy) {
                Ok(draws) => {
                    let messages = collect_transfers(&draws);
                    Ok(HandleResponse { messages, draws, data: None })
                },
                Err(e) => Err(e),
            }
        },
    }
}

} // verus!
