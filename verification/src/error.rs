//! The reasons for which a call is refused.

use vstd::prelude::*;

verus! {

/// Why a call was aborted. An aborted call leaves every record as it was.
#[derive(Clone, Copy, Debug, PartialEq, Eq, Structural)]
pub enum ContractError {
    /// The tier id is not one of the configured tiers.
    InvalidTier,
    /// The amount sent differs from the tier's entry fee.
    InvalidAmount,
    /// The picked number lies outside the numbers of the round.
    NumberOutOfRange,
    /// The user already holds a bet on the open round of the tier.
    AlreadyBet,
    /// The caller of a draw is not the triggerer.
    NotTriggerer,
    /// The caller of an administrative operation is not the owner.
    NotOwner,
    /// The user holds no bet on the given tier and round.
    BetNotFound,
    /// The tier has no round with the given number.
    RoundNotFound,
    /// The reward of the bet has been paid out before.
    AlreadyClaimed,
    /// The round is closed and the bet is not on its lucky number.
    NotWinner,
    /// The presented viewing key does not match the stored one, or none is stored.
    InvalidViewingKey,
    /// A subtraction on pools or counters would go below zero.
    Underflow,
    /// An addition on pools or counters would leave the range of its type.
    Overflow,
    /// A reward would be split among zero winners.
    DivideByZero,
    /// A receive message carried another receive message.
    RecursiveReceive,
    /// The call is not one that is served directly.
    HandlerNotFound,
    /// A receive notification carried no call, or one that takes no funds.
    ReceiveHandlerNotFound,
}

impl ContractError {
    /// Whether the error reports a broken ledger rather than a bad input.
    pub open spec fn arithmetic(self) -> bool {
        self == ContractError::Underflow || self == ContractError::Overflow || self
            == ContractError::DivideByZero
    }

    /// Whether the error reports a broken ledger rather than a bad input, so
    /// that a host can log it apart from ordinary refusals.
    pub fn is_arithmetic(&self) -> (yes: bool)
        ensures
            yes == self.arithmetic(),
    {
        match self {
            ContractError::Underflow => true,
            ContractError::Overflow => true,
            ContractError::DivideByZero => true,
            _ => false,
        }
    }

    /// The description of the error.
    pub open spec fn text(self) -> Seq<char> {
        match self {
            ContractError::InvalidTier => "Tier invalid"@,
            ContractError::InvalidAmount => "Amount invalid of tier choosen"@,
            ContractError::NumberOutOfRange => "Number invalid of tier choosen"@,
            ContractError::AlreadyBet => "User already bet on this round / tier."@,
            ContractError::NotTriggerer => "Not the valid triggerer!"@,
            ContractError::NotOwner => "Not the valid owner!"@,
            ContractError::BetNotFound => "User does not have any redeemable bet on this tier/round!"@,
            ContractError::RoundNotFound => "Round not found on this tier!"@,
            ContractError::AlreadyClaimed => "This user already claimed the reward for this tier/round!"@,
            ContractError::NotWinner => "User is not a winner! The bet number is not equal to the lucky number for this tier/round!"@,
            ContractError::InvalidViewingKey => "User+VK not valid!"@,
            ContractError::Underflow => "Cannot subtract below zero"@,
            ContractError::Overflow => "Cannot add beyond the largest amount"@,
            ContractError::DivideByZero => "Cannot split a reward among zero winners"@,
            ContractError::RecursiveReceive => "Recursive call to receive() is not allowed"@,
            ContractError::HandlerNotFound => "Handler not found!"@,
            ContractError::ReceiveHandlerNotFound => "Receive handler not found!"@,
        }
    }

    /// A short description for the caller.
    pub fn message(&self) -> (text: &'static str)
        ensures
            text@ == self.text(),
    {
        match self {
            ContractError::InvalidTier => "Tier invalid",
            ContractError::InvalidAmount => "Amount invalid of tier choosen",
            ContractError::NumberOutOfRange => "Number invalid of tier choosen",
            ContractError::AlreadyBet => "User already bet on this round / tier.",
            ContractError::NotTriggerer => "Not the valid triggerer!",
            ContractError::NotOwner => "Not the valid owner!",
            ContractError::BetNotFound => "User does not have any redeemable bet on this tier/round!",
            ContractError::RoundNotFound => "Round not found on this tier!",
            ContractError::AlreadyClaimed => "This user already claimed the reward for this tier/round!",
            ContractError::NotWinner => "User is not a winner! The bet number is not equal to the lucky number for this tier/round!",
            ContractError::InvalidViewingKey => "User+VK not valid!",
            ContractError::Underflow => "Cannot subtract below zero",
            ContractError::Overflow => "Cannot add beyond the largest amount",
            ContractError::DivideByZero => "Cannot split a reward among zero winners",
            ContractError::RecursiveReceive => "Recursive call to receive() is not allowed",
            ContractError::HandlerNotFound => "Handler not found!",
            ContractError::ReceiveHandlerNotFound => "Receive handler not found!",
        }
    }
}

} // verus!
