//! Plain message and answer types exchanged with the engine.

use vstd::prelude::*;

use crate::state::{RoundStruct, UserBetStruct};

verus! {

/// Static parameters of one tier.
#[derive(Clone, Copy, Debug, PartialEq, Eq, Structural)]
pub struct TierConfig {
    /// Exact amount a bet on this tier must carry.
    pub entry_fee: u128,
    /// Amount paid to the triggerer out of the pool at each draw.
    pub triggerer_fee: u128,
    /// Number of entry fees the pool must hold before a draw may close the round.
    pub min_entries: u32,
    /// Largest number that can be picked in rounds opened under this
    /// configuration; with 0 such a round takes no bet and cannot be drawn.
    pub max_rand_number: u32,
}

impl TierConfig {
    /// The pool size, as a mathematical integer, from which a draw is allowed.
    pub open spec fn threshold(&self) -> int {
        self.min_entries as int * self.entry_fee as int
    }

    /// Whether a pool of `pool_size` has reached the draw threshold.
    pub fn threshold_met(&self, pool_size: u128) -> (met: bool)
        ensures
            met == (pool_size as int >= self.threshold()),
    {
        match (self.min_entries as u128).checked_mul(self.entry_fee) {
            Some(needed) => pool_size >= needed,
            None => false,
        }
    }
}

/// What the engine needs to know about the call it serves.
#[derive(Clone, Debug, PartialEq)]
pub struct Env {
    /// Identity of the caller.
    pub sender: String,
    /// Current time.
    pub time: u64,
    /// Current block height.
    pub height: u64,
    /// Code hash of the lottery itself.
    pub contract_code_hash: String,
}

/// An order to move `amount` of the token to `recipient`.
#[derive(Clone, Debug, PartialEq)]
pub struct TransferInstruction {
    pub recipient: String,
    pub amount: u128,
}

/// What a trigger call did to one tier.
#[derive(Clone, Debug, PartialEq)]
pub enum DrawOutcome {
    /// The tier was not selected or its pool was below the threshold.
    Skipped,
    /// The open round was closed with `lucky_number`; `transfer` pays the triggerer.
    Drawn { lucky_number: u32, transfer: TransferInstruction },
}

/// Parameters with which the lottery is created.
#[derive(Clone, Debug, PartialEq)]
pub struct InitMsg {
    pub entropy: u64,
    pub triggerer_address: String,
    pub token_address: String,
    pub token_hash: String,
    pub token_vk: String,
    pub tier1_entry_fee: u128,
    pub tier1_triggerer_fee: u128,
    pub tier1_min_entries: u32,
    pub tier1_max_rand_number: u32,
    pub tier2_entry_fee: u128,
    pub tier2_triggerer_fee: u128,
    pub tier2_min_entries: u32,
    pub tier2_max_rand_number: u32,
    pub tier3_entry_fee: u128,
    pub tier3_triggerer_fee: u128,
    pub tier3_min_entries: u32,
    pub tier3_max_rand_number: u32,
}

impl InitMsg {
    /// The configuration given for the tier at index `i`.
    pub open spec fn tier_config(self, i: int) -> TierConfig {
        if i == 0 {
            TierConfig {
                entry_fee: self.tier1_entry_fee,
                triggerer_fee: self.tier1_triggerer_fee,
                min_entries: self.tier1_min_entries,
                max_rand_number: self.tier1_max_rand_number,
            }
        } else if i == 1 {
            TierConfig {
                entry_fee: self.tier2_entry_fee,
                triggerer_fee: self.tier2_triggerer_fee,
                min_entries: self.tier2_min_entries,
                max_rand_number: self.tier2_max_rand_number,
            }
        } else {
            TierConfig {
                entry_fee: self.tier3_entry_fee,
                triggerer_fee: self.tier3_triggerer_fee,
                min_entries: self.tier3_min_entries,
                max_rand_number: self.tier3_max_rand_number,
            }
        }
    }

    /// Computes [`InitMsg::tier_config`].
    pub fn config_of_tier(&self, i: usize) -> (config: TierConfig)
        ensures
            config == self.tier_config(i as int),
    {
        if i == 0 {
            TierConfig {
                entry_fee: self.tier1_entry_fee,
                triggerer_fee: self.tier1_triggerer_fee,
                min_entries: self.tier1_min_entries,
                max_rand_number: self.tier1_max_rand_number,
            }
        } else if i == 1 {
            TierConfig {
                entry_fee: self.tier2_entry_fee,
                triggerer_fee: self.tier2_triggerer_fee,
                min_entries: self.tier2_min_entries,
                max_rand_number: self.tier2_max_rand_number,
            }
        } else {
            TierConfig {
                entry_fee: self.tier3_entry_fee,
                triggerer_fee: self.tier3_triggerer_fee,
                min_entries: self.tier3_min_entries,
                max_rand_number: self.tier3_max_rand_number,
            }
        }
    }
}

/// The calls that change the state.
#[derive(Clone, Debug, PartialEq)]
#[allow(inconsistent_fields)]
pub enum HandleMsg {
    /// Notification of the token that `from` sent `amount`; `msg` holds, still
    /// encoded, the call the funds are meant for.
    Receive { sender: String, from: String, amount: u128, msg: Option<Vec<u8>> },
    Bet { tier: i8, number: u32 },
    CreateViewingKey { entropy: String, padding: Option<String> },
    SetViewingKey { key: String, padding: Option<String> },
    Withdrawl { tier: i8, round: u32 },
    ChangeAdmin { admin: String },
    ChangeTriggerer { triggerer: String },
    ChangeTier {
        tier: i8,
        entry_fee: u128,
        triggerer_fee: u128,
        min_entries: u32,
        max_rand_number: u32,
    },
    TriggerLuckyNumber { tier1: bool, tier2: bool, tier3: bool, entropy: u64 },
}

/// The calls that only read.
#[derive(Clone, Debug, PartialEq)]
#[allow(inconsistent_fields)]
pub enum QueryMsg {
    GetTriggerer {  },
    GetUserBets { user_address: String, viewing_key: String, keys: Vec<String> },
    GetPaginatedUserBets { user_address: String, viewing_key: String, page: u32, page_size: u32 },
    GetPaginatedRounds { tier1: bool, tier2: bool, tier3: bool, page: u32, page_size: u32 },
    GetRounds { tier1_rounds: Vec<u32>, tier2_rounds: Vec<u32>, tier3_rounds: Vec<u32> },
    GetTierConfigs { tier1: bool, tier2: bool, tier3: bool },
    CheckTriggers {  },
}

/// An answer without content.
#[derive(Clone, Copy, Debug, PartialEq, Eq, Structural)]
pub struct CountResponse {}

/// Messages sent to the token.
#[derive(Clone, Debug, PartialEq)]
#[allow(inconsistent_fields)]
pub enum Snip20Msg {
    RegisterReceive { code_hash: String, padding: Option<String> },
    Redeem { amount: u128, padding: Option<String> },
}

impl Snip20Msg {
    /// Asks the token to notify the contract with code hash `code_hash` of transfers to it.
    pub fn register_receive(code_hash: String) -> (msg: Snip20Msg)
        ensures
            msg == (Snip20Msg::RegisterReceive { code_hash, padding: None }),
    {
        Snip20Msg::RegisterReceive { code_hash, padding: None }
    }

    /// Asks the token to redeem `amount`.
    pub fn redeem(amount: u128) -> (msg: Snip20Msg)
        ensures
            msg == (Snip20Msg::Redeem { amount, padding: None }),
    {
        Snip20Msg::Redeem { amount, padding: None }
    }
}

/// The answers to the reading calls.
#[derive(Clone, Debug, PartialEq)]
#[allow(inconsistent_fields)]
pub enum QueryAnswer {
    GetTriggerer { triggerer: String },
    GetUserBets { user_bets: Vec<UserBetStruct> },
    GetPaginatedUserBets {
        user_bets: Vec<UserBetStruct>,
        bet_rounds: Vec<RoundStruct>,
        user_bets_total_count: usize,
    },
    GetPaginatedRounds {
        tier1_rounds: Option<Vec<RoundStruct>>,
        tier2_rounds: Option<Vec<RoundStruct>>,
        tier3_rounds: Option<Vec<RoundStruct>>,
    },
    GetRounds { rounds: Vec<RoundStruct> },
    GetTierConfigs {
        tier1_configs: Option<TierConfig>,
        tier2_configs: Option<TierConfig>,
        tier3_configs: Option<TierConfig>,
    },
    CheckTriggers { tier1_trigger: bool, tier2_trigger: bool, tier3_trigger: bool },
}

/// Success or failure of a call.
#[derive(Clone, Copy, Debug, PartialEq, Eq, Structural)]
pub enum ResponseStatus {
    Success,
    Failure,
}

/// The data a state-changing call hands back.
#[derive(Clone, Debug, PartialEq)]
#[allow(inconsistent_fields)]
pub enum HandleAnswer {
    /// Generic status with an optional description.
    Status { status: ResponseStatus, message: Option<String> },
    /// The viewing key that was created for the caller.
    ViewingKey { key: String },
}

/// What a state-changing call asks its host to do and hands back.
#[derive(Clone, Debug, PartialEq)]
pub struct HandleResponse {
    /// Transfers to carry out, in order.
    pub messages: Vec<TransferInstruction>,
    /// Outcome per tier of a trigger call; empty for every other call.
    pub draws: Vec<DrawOutcome>,
    /// Answer for the caller.
    pub data: Option<HandleAnswer>,
}

/// What the creation of the lottery asks its host to do.
#[derive(Clone, Debug, PartialEq)]
pub struct InitResponse {
    /// The registration to send to the token at `token_address`.
    pub register: Snip20Msg,
    pub token_address: String,
    pub token_hash: String,
}

} // verus!
