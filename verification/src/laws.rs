//! Laws of the lottery, proved from the models the entry points are specified with.

use vstd::prelude::*;

use crate::encoding::{decimal_text, law_decimal_round_trip, lemma_decimal_text_digits};
use crate::entropy::entropy_pushed;
use crate::error::ContractError;
use crate::state::{
    bet_key, bet_key_text, tier_text, valid_tier, lemma_picks_total_bounds, lemma_picks_total_update, lemma_picks_total_zeros,
    LotteryView, RoundView, TierView, UserBetsView, ENTROPY_CAPACITY,
};

verus! {

/// What can happen to an open round between its opening and its draw.
#[derive(Clone, Copy, Debug, PartialEq, Eq)]
pub enum RoundEvent {
    /// A bet on `number` was accepted.
    Bet { number: u32 },
    /// The bet on `number` was withdrawn.
    Cancel { number: u32 },
}

/// Bets placed and not withdrawn in a history of events.
pub open spec fn active_bets(events: Seq<RoundEvent>) -> int
    decreases events.len(),
{
    if events.len() == 0 {
        0
    } else {
        active_bets(events.drop_last()) + match events.last() {
            RoundEvent::Bet { .. } => 1int,
            RoundEvent::Cancel { .. } => -1int,
        }
    }
}

impl RoundView {
    /// The pool consists of `carried`, the amount the round was opened with,
    /// and one `fee` for every active bet.
    pub open spec fn backed(self, carried: u128, fee: u128) -> bool {
        self.pool_size == carried + self.users_count * fee
    }

    /// Whether the round has room for one more bet of `fee` on `number`.
    pub open spec fn can_take(self, number: u32, fee: u128) -> bool {
        &&& 1 <= number <= self.picks.len()
        &&& self.pool_size + fee <= u128::MAX
        &&& self.users_count < u32::MAX
    }

    /// The round after `event` at an entry fee of `fee`, where the event is possible.
    pub open spec fn after(self, event: RoundEvent, fee: u128) -> Option<RoundView> {
        match event {
            RoundEvent::Bet { number } => if self.can_take(number, fee) {
                Some(self.with_bet(number, fee))
            } else {
                None
            },
            RoundEvent::Cancel { number } => if self.can_cancel(number, fee) {
                Some(self.without_bet(number, fee))
            } else {
                None
            },
        }
    }

    /// The round after the events of `events` in turn, where all are possible.
    pub open spec fn replay(self, events: Seq<RoundEvent>, fee: u128) -> Option<RoundView>
        decreases events.len(),
    {
        if events.len() == 0 {
            Some(self)
        } else {
            match self.replay(events.drop_last(), fee) {
                Some(round) => round.after(events.last(), fee),
                None => None,
            }
        }
    }
}

/// A bet or a cancellation keeps an open round well formed and backed.
pub proof fn law_event_keeps_backing(
    round: RoundView,
    event: RoundEvent,
    carried: u128,
    fee: u128,
)
    requires
        round.wf(),
        round.is_open(),
        round.backed(carried, fee),
        round.after(event, fee) is Some,
    ensures
        round.after(event, fee)->0.wf(),
        round.after(event, fee)->0.is_open(),
        round.after(event, fee)->0.backed(carried, fee),
        round.after(event, fee)->0.round_number == round.round_number,
        round.after(event, fee)->0.users_count == round.users_count + active_bets(seq![event]),
{
    let count = round.users_count as int;
    assert(seq![event].drop_last() =~= Seq::<RoundEvent>::empty());
    assert(active_bets(seq![event].drop_last()) == 0);
    match event {
        RoundEvent::Bet { number } => {
            lemma_picks_total_update(
                round.picks,
                number - 1,
                (round.picks[number - 1] + 1) as u32,
            );
            lemma_picks_total_bounds(round.picks, number - 1);
            assert((count + 1) * fee == count * fee + fee) by (nonlinear_arith);
        },
        RoundEvent::Cancel { number } => {
            lemma_picks_total_update(
                round.picks,
                number - 1,
                (round.picks[number - 1] - 1) as u32,
            );
            assert((count - 1) * fee == count * fee - fee) by (nonlinear_arith);
        },
    }
}

/// Whatever bets and cancellations an open round has seen since it was
/// opened with `carried` in its pool, the pool is `carried` plus one entry
/// fee for every bet that was placed and not withdrawn.
pub proof fn law_pool_is_carry_plus_active_bets(
    round_number: u32,
    max_number: u32,
    carried: u128,
    events: Seq<RoundEvent>,
    fee: u128,
)
    requires
        RoundView::opened(round_number, max_number, carried).replay(events, fee) is Some,
    ensures
        ({
            let round = RoundView::opened(round_number, max_number, carried).replay(
                events,
                fee,
            )->0;
            &&& round.wf()
            &&& round.is_open()
            &&& round.round_number == round_number
            &&& round.users_count == active_bets(events)
            &&& round.pool_size == carried + active_bets(events) * fee
        }),
    decreases events.len(),
{
    let start = RoundView::opened(round_number, max_number, carried);
    if events.len() == 0 {
        lemma_picks_total_zeros(start.picks);
        assert(0 * fee == 0) by (nonlinear_arith);
    } else {
        law_pool_is_carry_plus_active_bets(
            round_number,
            max_number,
            carried,
            events.drop_last(),
            fee,
        );
        let before = start.replay(events.drop_last(), fee)->0;
        law_event_keeps_backing(before, events.last(), carried, fee);
    }
}

/// An accepted bet is a bet event on the open round of its tier.
pub proof fn law_bet_is_round_event(
    state: LotteryView,
    bets: UserBetsView,
    amount: u128,
    number: u32,
    tier: i8,
)
    requires
        state.wf(),
        state.bet_error(bets, amount, number, tier) is None,
    ensures
        state.with_bet(amount, number, tier).tier(tier).current() == state.tier(
            tier,
        ).current().after(RoundEvent::Bet { number }, state.tier(tier).config.entry_fee)->0,
        state.tier(tier).current().after(
            RoundEvent::Bet { number },
            state.tier(tier).config.entry_fee,
        ) is Some,
{
}

/// The withdrawal of a bet on the open round is a cancel event on that round.
pub proof fn law_withdrawal_is_round_event(
    state: LotteryView,
    bets: UserBetsView,
    tier: i8,
    round: u32,
)
    requires
        state.wf(),
        state.withdraw_error(bets, tier, round) is None,
        state.round_open(tier, round),
    ensures
        state.settled(bets, tier, round).tier(tier).current() == state.tier(tier).current().after(
            RoundEvent::Cancel { number: bets.bet_on(tier, round)->0.number },
            state.tier(tier).config.entry_fee,
        )->0,
        state.tier(tier).current().after(
            RoundEvent::Cancel { number: bets.bet_on(tier, round)->0.number },
            state.tier(tier).config.entry_fee,
        ) is Some,
{
    let t = state.tier(tier);
    assert(t.wf());
    assert(t.rounds[round as int].is_open() <==> round == t.rounds.len() - 1);
}

/// Redeeming a reward moves nothing in any round.
pub proof fn law_claim_changes_no_round(state: LotteryView, bets: UserBetsView, tier: i8, round: u32)
    requires
        !state.round_open(tier, round),
    ensures
        state.settled(bets, tier, round) == state,
{
}

/// Conservation: when a draw closes a round that was opened with `carried`
/// and has since seen the bets and cancellations of `events` at an entry fee
/// of `fee`, the final pool and the triggerer fee taken add up to `carried`
/// plus the entry fees of all bets placed in the round and not withdrawn.
pub proof fn law_conservation(
    tier: TierView,
    max_number: u32,
    carried: u128,
    events: Seq<RoundEvent>,
    fee: u128,
    lucky_number: u32,
    time: u64,
)
    requires
        tier.wf(),
        RoundView::opened(tier.current().round_number, max_number, carried).replay(events, fee)
            == Some(tier.current()),
        tier.close_error(lucky_number) is None,
    ensures
        ({
            let closed = tier.drawn(lucky_number, time).rounds[tier.rounds.len() - 1];
            &&& closed.round_end_pool_size is Some
            &&& closed.round_end_pool_size->0 + tier.config.triggerer_fee == carried + active_bets(
                events,
            ) * fee
            &&& closed.users_count == active_bets(events)
        }),
{
    law_pool_is_carry_plus_active_bets(
        tier.current().round_number,
        max_number,
        carried,
        events,
        fee,
    );
}

/// Conservation for a round that was opened empty: the final pool and the
/// triggerer fee taken add up to the entry fees of all bets placed in the
/// round and not withdrawn.
pub proof fn law_conservation_from_empty(
    tier: TierView,
    max_number: u32,
    events: Seq<RoundEvent>,
    fee: u128,
    lucky_number: u32,
    time: u64,
)
    requires
        tier.wf(),
        RoundView::opened(tier.current().round_number, max_number, 0).replay(events, fee) == Some(
            tier.current(),
        ),
        tier.close_error(lucky_number) is None,
    ensures
        ({
            let closed = tier.drawn(lucky_number, time).rounds[tier.rounds.len() - 1];
            closed.round_end_pool_size->0 + tier.config.triggerer_fee == active_bets(events) * fee
        }),
{
    law_conservation(tier, max_number, 0, events, fee, lucky_number, time);
}

/// No funds appear or vanish in a draw: what the closed round keeps, what
/// the next round starts with and the fee paid to the triggerer add up to
/// the pool before the draw.
pub proof fn law_draw_moves_all_funds(tier: TierView, lucky_number: u32, time: u64)
    requires
        tier.wf(),
        tier.close_error(lucky_number) is None,
    ensures
        ({
            let after = tier.drawn(lucky_number, time);
            after.rounds[tier.rounds.len() - 1].pool_size + after.current().pool_size
                + tier.config.triggerer_fee == tier.current().pool_size
        }),
{
}

/// The round that a draw opens is a fresh round with the numbers of the
/// current configuration and the rolled-over amount in its pool.
pub proof fn law_next_round_is_fresh(tier: TierView, lucky_number: u32, time: u64)
    requires
        tier.wf(),
        tier.close_error(lucky_number) is None,
    ensures
        tier.drawn(lucky_number, time).current() == RoundView::opened(
            tier.rounds.len() as u32,
            tier.config.max_rand_number,
            tier.current().rollover(lucky_number, tier.config.triggerer_fee),
        ),
{
}

/// Dedup, on the record: a well-formed record holds at most one bet per tier and round.
pub proof fn law_one_bet_per_round(bets: UserBetsView, i: int, j: int)
    requires
        bets.wf(),
        0 <= i < bets.history().len(),
        0 <= j < bets.history().len(),
        bets.history()[i].tier == bets.history()[j].tier,
        bets.history()[i].round_number == bets.history()[j].round_number,
    ensures
        i == j,
{
    assert(bets.bet_keys.contains(bets.bet_keys[i]));
    assert(bets.bet_keys.contains(bets.bet_keys[j]));
}

/// Dedup, on the calls: once a bet was accepted, every further bet of the
/// same user on the same tier is refused while the round stays open, whatever
/// its amount and number; one that passes the other checks is refused as a
/// duplicate.
pub proof fn law_second_bet_refused(
    state: LotteryView,
    bets: UserBetsView,
    amount: u128,
    number: u32,
    tier: i8,
    time: u64,
    next_amount: u128,
    next_number: u32,
)
    requires
        state.wf(),
        bets.wf(),
        state.bet_error(bets, amount, number, tier) is None,
    ensures
        ({
            let refused = state.with_bet(amount, number, tier).bet_error(
                bets.with_bet(state.new_bet(number, tier, time)),
                next_amount,
                next_number,
                tier,
            );
            &&& refused is Some
            &&& refused == Some(ContractError::InvalidAmount) || refused == Some(
                ContractError::NumberOutOfRange,
            ) || refused == Some(ContractError::AlreadyBet)
            &&& next_amount == amount && next_number == number ==> refused == Some(
                ContractError::AlreadyBet,
            )
        }),
{
    let after = state.with_bet(amount, number, tier);
    assert(after.tier(tier).current().round_number == state.tier(tier).current().round_number);
    assert(after.tier(tier).config == state.tier(tier).config);
    assert(after.tier(tier).current().picks.len() == state.tier(tier).current().picks.len());
}

/// Monotonic rounds: in a well-formed ledger the round numbers are
/// `0, 1, 2, ..` and exactly the last round is open.
pub proof fn law_rounds_monotonic(tier: TierView)
    requires
        tier.wf(),
    ensures
        tier.rounds.len() >= 1,
        forall|i: int| 0 <= i < tier.rounds.len() ==> (#[trigger] tier.rounds[i]).round_number == i,
        forall|i: int|
            0 <= i < tier.rounds.len() ==> ((#[trigger] tier.rounds[i]).lucky_number is None <==> i
                == tier.rounds.len() - 1),
{
    assert forall|i: int| 0 <= i < tier.rounds.len() implies (#[trigger] tier.rounds[i]).round_number
        == i by {
        assert(tier.rounds[i].wf());
    }
    assert forall|i: int| 0 <= i < tier.rounds.len() implies ((#[trigger] tier.rounds[i]).lucky_number
        is None <==> i == tier.rounds.len() - 1) by {
        assert(tier.rounds[i].wf());
    }
}

/// Monotonic rounds: a draw appends exactly one round and rewrites no
/// earlier round but the one it closes.
pub proof fn law_draw_appends_one_round(tier: TierView, lucky_number: u32, time: u64)
    requires
        tier.wf(),
        tier.close_error(lucky_number) is None,
    ensures
        tier.drawn(lucky_number, time).wf(),
        tier.drawn(lucky_number, time).rounds.len() == tier.rounds.len() + 1,
        tier.drawn(lucky_number, time).current().round_number == tier.rounds.len(),
        forall|i: int|
            0 <= i < tier.rounds.len() - 1 ==> tier.drawn(lucky_number, time).rounds[i]
                == tier.rounds[i],
{
    tier.lemma_drawn_wf(lucky_number, time);
}

/// Rollover: a draw without winners moves the whole final pool into the next
/// round and leaves the closed round with an empty pool; a draw with winners
/// keeps the final pool in the closed round and opens the next round empty.
pub proof fn law_rollover(tier: TierView, lucky_number: u32, time: u64)
    requires
        tier.wf(),
        tier.close_error(lucky_number) is None,
    ensures
        ({
            let after = tier.drawn(lucky_number, time);
            let closed = after.rounds[tier.rounds.len() - 1];
            &&& closed.winner_count is Some
            &&& closed.round_end_pool_size is Some
            &&& closed.winner_count->0 == 0 ==> after.current().pool_size
                == closed.round_end_pool_size->0 && closed.pool_size == 0
            &&& closed.winner_count->0 > 0 ==> after.current().pool_size == 0 && closed.pool_size
                == closed.round_end_pool_size->0
        }),
{
}

/// Threshold gating: a tier whose pool is below the threshold is never drawn,
/// whatever the flags of the call.
pub proof fn law_threshold_gating(state: LotteryView, tier1: bool, tier2: bool, tier3: bool, i: int)
    requires
        0 <= i < state.tiers.len(),
        (state.tiers[i].current().pool_size as int) < state.tiers[i].config.min_entries as int
            * state.tiers[i].config.entry_fee as int,
    ensures
        !state.draws(tier1, tier2, tier3, i),
{
}

/// A round without numbers takes no bet: a bet of the right amount is
/// refused as out of range, whatever its number.
pub proof fn law_round_without_numbers_takes_no_bet(
    state: LotteryView,
    bets: UserBetsView,
    amount: u128,
    number: u32,
    tier: i8,
)
    requires
        state.wf(),
        valid_tier(tier),
        state.tier(tier).current().picks.len() == 0,
    ensures
        state.bet_error(bets, amount, number, tier) is Some,
        amount == state.tier(tier).config.entry_fee ==> state.bet_error(bets, amount, number, tier)
            == Some(ContractError::NumberOutOfRange),
{
}

/// A round without numbers cannot be drawn: a trigger call that would draw
/// it is refused as a whole.
pub proof fn law_round_without_numbers_is_not_drawn(
    state: LotteryView,
    sender: Seq<char>,
    tier1: bool,
    tier2: bool,
    tier3: bool,
    i: int,
)
    requires
        state.wf(),
        0 <= i < state.tiers.len(),
        state.draws(tier1, tier2, tier3, i),
        state.tiers[i].current().picks.len() == 0,
    ensures
        state.trigger_error(sender, tier1, tier2, tier3) is Some,
{
    assert(state.tiers[i].draw_error() is Some);
    assert(state.first_draw_error(tier1, tier2, tier3, 3) is None);
    assert(state.first_draw_error(tier1, tier2, tier3, 2) is Some || i < 2);
    assert(state.first_draw_error(tier1, tier2, tier3, 1) is Some || i < 1);
    assert(state.first_draw_error(tier1, tier2, tier3, 0) is Some);
}

/// The winners of a round never receive more than its final pool.
pub proof fn law_rewards_within_pool(round: RoundView)
    requires
        round.wf(),
        !round.is_open(),
        round.winner_count->0 > 0,
    ensures
        round.reward() * round.winner_count->0 <= round.round_end_pool_size->0,
{
    let pool = round.round_end_pool_size->0 as int;
    let winners = round.winner_count->0 as int;
    assert((pool / winners) * winners <= pool) by (nonlinear_arith)
        requires
            winners > 0,
            pool >= 0,
    ;
}

/// Closed rounds are immutable: a bet touches no round but the open round of its tier.
pub proof fn law_bet_keeps_closed_rounds(
    state: LotteryView,
    bets: UserBetsView,
    amount: u128,
    number: u32,
    tier: i8,
    other: int,
    round: int,
)
    requires
        state.wf(),
        state.bet_error(bets, amount, number, tier) is None,
        0 <= other < state.tiers.len(),
        0 <= round < state.tiers[other].rounds.len(),
        !state.tiers[other].rounds[round].is_open() || other != tier - 1,
    ensures
        state.with_bet(amount, number, tier).tiers[other].rounds[round]
            == state.tiers[other].rounds[round],
{
    assert(state.tiers[other].wf());
}

/// Closed rounds are immutable: a settlement touches no round but, for a
/// cancellation, the open round of its tier.
pub proof fn law_settlement_keeps_closed_rounds(
    state: LotteryView,
    bets: UserBetsView,
    tier: i8,
    settled_round: u32,
    other: int,
    round: int,
)
    requires
        state.wf(),
        state.withdraw_error(bets, tier, settled_round) is None,
        0 <= other < state.tiers.len(),
        0 <= round < state.tiers[other].rounds.len(),
        !state.tiers[other].rounds[round].is_open() || other != tier - 1,
    ensures
        state.settled(bets, tier, settled_round).tiers[other].rounds[round]
            == state.tiers[other].rounds[round],
{
    assert(state.tiers[other].wf());
}

/// Two bets are filed under the same key exactly when they are on the same
/// tier and round.
pub proof fn law_bet_key_injective(tier_a: i8, round_a: u32, tier_b: i8, round_b: u32)
    ensures
        bet_key(tier_a, round_a) == bet_key(tier_b, round_b) <==> tier_a == tier_b && round_a
            == round_b,
{
}

/// A reward is paid once: after a reward was redeemed, the same settlement
/// is refused as already claimed.
pub proof fn law_reward_claimed_once(state: LotteryView, bets: UserBetsView, tier: i8, round: u32)
    requires
        state.wf(),
        bets.wf(),
        state.withdraw_error(bets, tier, round) is None,
        !state.round_open(tier, round),
    ensures
        state.settled(bets, tier, round).withdraw_error(
            bets.settled(false, tier, round),
            tier,
            round,
        ) == Some(ContractError::AlreadyClaimed),
{
}

/// A cancelled bet is gone: after a bet on an open round was withdrawn, the
/// same settlement finds no bet.
pub proof fn law_cancelled_bet_is_gone(state: LotteryView, bets: UserBetsView, tier: i8, round: u32)
    requires
        state.wf(),
        bets.wf(),
        state.withdraw_error(bets, tier, round) is None,
        state.round_open(tier, round),
    ensures
        state.settled(bets, tier, round).withdraw_error(
            bets.settled(true, tier, round),
            tier,
            round,
        ) == Some(ContractError::BetNotFound),
{
    bets.lemma_without_bet_wf(tier, round);
}

/// The buffer of recent picks after the picks of `picks` were pushed in turn.
pub open spec fn entropy_after(recent: Seq<u64>, picks: Seq<u64>) -> Seq<u64>
    decreases picks.len(),
{
    if picks.len() == 0 {
        recent
    } else {
        entropy_pushed(entropy_after(recent, picks.drop_last()), picks.last())
    }
}

/// The newest `ENTROPY_CAPACITY` entries of `picks`, or all of them if there are fewer.
pub open spec fn newest(picks: Seq<u64>) -> Seq<u64> {
    if picks.len() <= ENTROPY_CAPACITY {
        picks
    } else {
        picks.skip(picks.len() - ENTROPY_CAPACITY)
    }
}

/// The buffer of recent picks is a queue of bounded length: starting empty,
/// it always holds the newest picks, oldest first.
pub proof fn law_entropy_buffer_holds_newest(picks: Seq<u64>)
    ensures
        entropy_after(Seq::empty(), picks) == newest(picks),
    decreases picks.len(),
{
    if picks.len() > 0 {
        law_entropy_buffer_holds_newest(picks.drop_last());
        assert(entropy_after(Seq::empty(), picks) =~= newest(picks));
    }
}

/// The text of a tier id is not empty and holds a minus sign or digits only.
proof fn lemma_tier_text_bytes(tier: i8)
    ensures
        tier_text(tier).len() >= 1,
        forall|i: int|
            0 <= i < tier_text(tier).len() ==> {
                let byte = #[trigger] tier_text(tier)[i];
                byte == 45 || 48 <= byte <= 57
            },
{
    if tier < 0 {
        lemma_decimal_text_digits((-tier) as nat);
    } else {
        lemma_decimal_text_digits(tier as nat);
    }
}

/// Different tier ids have different texts.
proof fn lemma_tier_text_injective(a: i8, b: i8)
    requires
        tier_text(a) == tier_text(b),
    ensures
        a == b,
{
    let low = if a < 0 { (-a) as nat } else { a as nat };
    let other = if b < 0 { (-b) as nat } else { b as nat };
    lemma_decimal_text_digits(low);
    lemma_decimal_text_digits(other);
    law_decimal_round_trip(low);
    law_decimal_round_trip(other);
    if a < 0 && b < 0 {
        assert(tier_text(a).skip(1) =~= decimal_text(low));
        assert(tier_text(b).skip(1) =~= decimal_text(other));
    } else if a < 0 {
        assert(tier_text(a)[0] == 45);
        assert(tier_text(b)[0] == decimal_text(other)[0]);
    } else if b < 0 {
        assert(tier_text(b)[0] == 45);
        assert(tier_text(a)[0] == decimal_text(low)[0]);
    }
}

/// A bet's name tells its tier and round: two names are the same exactly
/// when tier and round are.
pub proof fn law_bet_key_text_injective(tier_a: i8, round_a: u32, tier_b: i8, round_b: u32)
    ensures
        bet_key_text(tier_a, round_a) == bet_key_text(tier_b, round_b) <==> tier_a == tier_b
            && round_a == round_b,
{
    let name_a = bet_key_text(tier_a, round_a);
    let name_b = bet_key_text(tier_b, round_b);
    if name_a == name_b {
        let head_a = tier_text(tier_a);
        let head_b = tier_text(tier_b);
        let tail_a = decimal_text(round_a as nat);
        let tail_b = decimal_text(round_b as nat);
        lemma_tier_text_bytes(tier_a);
        lemma_tier_text_bytes(tier_b);
        let len_a = head_a.len() as int;
        let len_b = head_b.len() as int;
        assert(name_a[4 + len_a] == 95);
        assert(name_b[4 + len_b] == 95);
        if head_a.len() < head_b.len() {
            assert(name_b[4 + len_a] == head_b[len_a]);
        }
        if head_b.len() < head_a.len() {
            assert(name_a[4 + len_b] == head_a[len_b]);
        }
        assert(head_a.len() == head_b.len());
        assert forall|i: int| 0 <= i < head_a.len() implies head_a[i] == head_b[i] by {
            assert(name_a[4 + i] == head_a[i]);
            assert(name_b[4 + i] == head_b[i]);
        }
        assert(head_a =~= head_b);
        lemma_tier_text_injective(tier_a, tier_b);
        assert(tail_a.len() == tail_b.len()) by {
            assert(name_a.len() == 4 + head_a.len() + 6 + tail_a.len());
            assert(name_b.len() == 4 + head_b.len() + 6 + tail_b.len());
        }
        assert forall|i: int| 0 <= i < tail_a.len() implies tail_a[i] == tail_b[i] by {
            assert(name_a[4 + len_a + 6 + i] == tail_a[i]);
            assert(name_b[4 + len_b + 6 + i] == tail_b[i]);
        }
        assert(tail_a =~= tail_b);
        law_decimal_round_trip(round_a as nat);
        law_decimal_round_trip(round_b as nat);
    }
}

/// No two bets of a well-formed record are known by the same name.
pub proof fn law_one_bet_per_name(bets: UserBetsView, i: int, j: int)
    requires
        bets.wf(),
        0 <= i < bets.history().len(),
        0 <= j < bets.history().len(),
        bets.history()[i].key_text() == bets.history()[j].key_text(),
    ensures
        i == j,
{
    let a = bets.history()[i];
    let b = bets.history()[j];
    law_bet_key_text_injective(a.tier, a.round_number, b.tier, b.round_number);
    law_one_bet_per_round(bets, i, j);
}

} // verus!
