//! The transitions of a round and of a tier's ledger.

use vstd::prelude::*;

use crate::error::ContractError;
use crate::state::{
    lemma_picks_total_bounds, lemma_picks_total_update, picks_of, RoundStruct, RoundView,
    TierState, TierView,
};

verus! {

impl RoundView {
    /// The round after one more bet of `amount` on `number`.
    pub open spec fn with_bet(self, number: u32, amount: u128) -> RoundView {
        RoundView {
            pool_size: (self.pool_size + amount) as u128,
            users_count: (self.users_count + 1) as u32,
            picks: self.picks.update(number - 1, (self.picks[number - 1] + 1) as u32),
            ..self
        }
    }

    /// The round after the bet on `number` was cancelled and `refund` paid back.
    pub open spec fn without_bet(self, number: u32, refund: u128) -> RoundView {
        RoundView {
            pool_size: (self.pool_size - refund) as u128,
            users_count: (self.users_count - 1) as u32,
            picks: self.picks.update(number - 1, (self.picks[number - 1] - 1) as u32),
            ..self
        }
    }

    /// Whether cancelling a bet on `number` against `refund` stays within the
    /// round's counters and pool.
    pub open spec fn can_cancel(self, number: u32, refund: u128) -> bool {
        &&& picks_of(self.picks, number) >= 1
        &&& self.users_count >= 1
        &&& self.pool_size >= refund
    }

    /// What is left for the winners when `fee` is taken from the pool.
    pub open spec fn end_pool(self, fee: u128) -> u128 {
        (self.pool_size - fee) as u128
    }

    /// The amount that moves on to the next round: everything that is left
    /// when nobody picked `lucky_number`, nothing otherwise.
    pub open spec fn rollover(self, lucky_number: u32, fee: u128) -> u128 {
        if self.picks[lucky_number - 1] == 0 {
            self.end_pool(fee)
        } else {
            0
        }
    }

    /// The round as the draw of `lucky_number` at `time` leaves it.
    pub open spec fn closed(self, lucky_number: u32, fee: u128, time: u64) -> RoundView {
        RoundView {
            lucky_number: Some(lucky_number),
            round_end_timestamp: Some(time),
            round_end_pool_size: Some(self.end_pool(fee)),
            winner_count: Some(self.picks[lucky_number - 1]),
            pool_size: if self.picks[lucky_number - 1] == 0 {
                0
            } else {
                self.end_pool(fee)
            },
            ..self
        }
    }

    /// The share of one winner: the final pool divided by the number of
    /// winners, rounded down.
    pub open spec fn reward(self) -> u128
        recommends
            self.round_end_pool_size is Some,
            self.winner_count is Some,
            self.winner_count->0 > 0,
    {
        (self.round_end_pool_size->0 / self.winner_count->0 as u128) as u128
    }
}

impl RoundStruct {
    /// Adds a bet of `amount` on `number` to an open round.
    pub(crate) fn place(&mut self, number: u32, amount: u128)
        requires
            old(self)@.wf(),
            old(self)@.is_open(),
            1 <= number <= old(self)@.picks.len(),
            old(self).pool_size + amount <= u128::MAX,
            old(self).users_count < u32::MAX,
        ensures
            final(self)@ == old(self)@.with_bet(number, amount),
            final(self)@.wf(),
            final(self)@.is_open(),
    {
        let slot = (number - 1) as usize;
        proof {
            lemma_picks_total_bounds(self@.picks, slot as int);
            lemma_picks_total_update(
                self@.picks,
                slot as int,
                (self@.picks[slot as int] + 1) as u32,
            );
        }
        let picked = self.users_picked_numbers_count[slot];
        self.users_picked_numbers_count[slot] = picked + 1;
        self.pool_size = self.pool_size + amount;
        self.users_count = self.users_count + 1;
    }

    /// Takes the bet on `number` out of an open round and `refund` out of its pool.
    pub(crate) fn cancel(&mut self, number: u32, refund: u128)
        requires
            old(self)@.wf(),
            old(self)@.is_open(),
            old(self)@.can_cancel(number, refund),
        ensures
            final(self)@ == old(self)@.without_bet(number, refund),
            final(self)@.wf(),
            final(self)@.is_open(),
    {
        let slot = (number - 1) as usize;
        proof {
            lemma_picks_total_update(
                self@.picks,
                slot as int,
                (self@.picks[slot as int] - 1) as u32,
            );
        }
        let picked = self.users_picked_numbers_count[slot];
        self.users_picked_numbers_count[slot] = picked - 1;
        self.pool_size = self.pool_size - refund;
        self.users_count = self.users_count - 1;
    }

    /// The counter kept for `number`; zero for a number outside the histogram.
    pub fn picked(&self, number: u32) -> (count: u32)
        ensures
            count == picks_of(self@.picks, number),
    {
        if number >= 1 && number as usize <= self.users_picked_numbers_count.len() {
            self.users_picked_numbers_count[(number - 1) as usize]
        } else {
            0
        }
    }

    /// A copy of the round.
    pub fn duplicate(&self) -> (copy: RoundStruct)
        ensures
            copy@ == self@,
    {
        let mut picks: Vec<u32> = Vec::new();
        let mut i: usize = 0;
        while i < self.users_picked_numbers_count.len()
            invariant
                i <= self.users_picked_numbers_count@.len(),
                picks@ == self.users_picked_numbers_count@.take(i as int),
            decreases self.users_picked_numbers_count@.len() - i,
        {
            picks.push(self.users_picked_numbers_count[i]);
            assert(picks@ =~= self.users_picked_numbers_count@.take(i + 1));
            i = i + 1;
        }
        assert(picks@ =~= self.users_picked_numbers_count@);
        RoundStruct {
            round_number: self.round_number,
            pool_size: self.pool_size,
            lucky_number: self.lucky_number,
            users_count: self.users_count,
            round_end_timestamp: self.round_end_timestamp,
            round_end_pool_size: self.round_end_pool_size,
            winner_count: self.winner_count,
            users_picked_numbers_count: picks,
        }
    }
}

impl TierView {
    /// The tier with its open round replaced by `round`.
    pub open spec fn with_current(self, round: RoundView) -> TierView {
        TierView { rounds: self.rounds.update(self.rounds.len() - 1, round), ..self }
    }

    /// The tier with round `round_number` replaced by `round`.
    pub open spec fn with_round(self, round_number: u32, round: RoundView) -> TierView {
        TierView { rounds: self.rounds.update(round_number as int, round), ..self }
    }

    /// Why a draw of `lucky_number` cannot close the open round, if it cannot.
    pub open spec fn close_error(self, lucky_number: u32) -> Option<ContractError> {
        if !(1 <= lucky_number <= self.current().picks.len()) {
            Some(ContractError::NumberOutOfRange)
        } else if self.current().pool_size < self.config.triggerer_fee {
            Some(ContractError::Underflow)
        } else if self.rounds.len() >= u32::MAX {
            Some(ContractError::Overflow)
        } else {
            None
        }
    }

    /// The tier after the draw of `lucky_number` at `time`: the open round is
    /// closed with the triggerer fee deducted, and a new round is opened with
    /// the numbers of the current configuration and the rolled-over pool.
    pub open spec fn drawn(self, lucky_number: u32, time: u64) -> TierView {
        let fee = self.config.triggerer_fee;
        TierView {
            rounds: self.rounds.update(
                self.rounds.len() - 1,
                self.current().closed(lucky_number, fee, time),
            ).push(
                RoundView::opened(
                    self.rounds.len() as u32,
                    self.config.max_rand_number,
                    self.current().rollover(lucky_number, fee),
                ),
            ),
            ..self
        }
    }

    /// A draw that can close the open round keeps the ledger well formed.
    pub proof fn lemma_drawn_wf(self, lucky_number: u32, time: u64)
        requires
            self.wf(),
            self.close_error(lucky_number) is None,
        ensures
            self.drawn(lucky_number, time).wf(),
    {
        let after = self.drawn(lucky_number, time);
        let last = self.rounds.len() - 1;
        assert(self.rounds[last].wf());
        crate::state::lemma_picks_total_zeros(after.rounds[last + 1].picks);
        assert forall|i: int| 0 <= i < after.rounds.len() implies {
            &&& (#[trigger] after.rounds[i]).wf()
            &&& after.rounds[i].round_number == i
            &&& (after.rounds[i].is_open() <==> i == after.rounds.len() - 1)
        } by {
            if i < last {
                assert(self.rounds[i].wf());
            }
        }
    }
}

impl TierState {
    /// Closes the open round with `lucky_number` as the drawn number and opens the next one.
    ///
    /// On success returns the fee owed to the triggerer. On failure the tier
    /// is left as it was.
    pub fn close_round(&mut self, lucky_number: u32, time: u64) -> (paid: Result<
        u128,
        ContractError,
    >)
        requires
            old(self)@.wf(),
        ensures
            match paid {
                Ok(fee) => {
                    &&& old(self)@.close_error(lucky_number) is None
                    &&& fee == old(self).config.triggerer_fee
                    &&& final(self)@ == old(self)@.drawn(lucky_number, time)
                    &&& final(self)@.wf()
                },
                Err(e) => {
                    &&& old(self)@.close_error(lucky_number) == Some(e)
                    &&& *final(self) == *old(self)
                },
            },
    {
        let last = self.rounds.len() - 1;
        let fee = self.config.triggerer_fee;
        assert(self@.rounds[last as int] == self.rounds[last as int]@);
        assert(self@.rounds[last as int].wf());
        if lucky_number < 1 || lucky_number as usize
            > self.rounds[last].users_picked_numbers_count.len() {
            return Err(ContractError::NumberOutOfRange);
        }
        if self.rounds[last].pool_size < fee {
            return Err(ContractError::Underflow);
        }
        if self.rounds.len() >= u32::MAX as usize {
            return Err(ContractError::Overflow);
        }
        proof {
            self@.lemma_drawn_wf(lucky_number, time);
        }
        let ghost before = self@;
        let next_number = self.rounds.len() as u32;
        let winners = self.rounds[last].users_picked_numbers_count[(lucky_number - 1) as usize];
        let end_pool = self.rounds[last].pool_size - fee;
        let carried = if winners == 0 {
            end_pool
        } else {
            0
        };
        let round = &mut self.rounds[last];
        round.lucky_number = Some(lucky_number);
        round.round_end_timestamp = Some(time);
        round.round_end_pool_size = Some(end_pool);
        round.winner_count = Some(winners);
        round.pool_size = if winners == 0 {
            0
        } else {
            end_pool
        };
        self.rounds.push(RoundStruct::open(next_number, self.config.max_rand_number, carried));
        assert(self@.rounds =~= before.drawn(lucky_number, time).rounds);
        Ok(fee)
    }
}

} // verus!
