//! The error surface of the contract.
//!
//! Every failing call returns one of these kinds, so a caller can branch on
//! the cause; the host discards all pending writes when a call errs.

use vstd::prelude::*;
use vstd::string::StringExecFns;

verus! {

/// Why a call into the contract was rejected.
#[derive(Debug, Clone, PartialEq)]
pub enum ContractError {
    /// An opaque ledger fault, surfaced verbatim.
    Std { msg: String },
    /// The caller is not the identity the operation demands.
    Unauthorized,
    /// A custom fault with a free-form description.
    CustomError { val: String },
    /// No game exists under the given id.
    WrongGameId,
    /// The raffle already reached its terminal state.
    RaffleEnded,
    /// The sale window of the raffle is over.
    RaffleTimeOver,
    /// The raffle has not started yet.
    RaffleNotActive,
    /// Every ticket of the raffle was sold.
    RaffleSoldOut,
    /// Settlement was attempted before the end time of the game.
    CantFinishGame,
    /// The contract cannot transfer the prize asset.
    CantAccessPrize,
    /// The deposit is below the price of one ticket.
    IncorrectFunds,
    /// The deposit does not match the ticket price.
    PayError { ticket_price: u32 },
    /// The raffle has no participants.
    NoParticipants,
    /// The prize reference is absent where a custody operation needs it.
    MissingNftContractAddr,
    /// Funds may not move before the raffle is finished.
    CantTransferTokens,
}

impl ContractError {
    /// A human-readable description of the error.
    pub fn message(&self) -> (r: String)
        ensures
            match self {
                ContractError::Std { msg } => r@ == msg@,
                ContractError::Unauthorized => r@ == "Unauthorized"@,
                ContractError::CustomError { val } => r@ == "Custom Error val: "@ + val@,
                ContractError::WrongGameId => r@ == "Wrong Game Id"@,
                ContractError::RaffleEnded => r@ == "Raffle already ended"@,
                ContractError::RaffleTimeOver => r@ == "Raffle Time Over"@,
                ContractError::RaffleNotActive => r@ == "Raffle not started yet"@,
                ContractError::RaffleSoldOut => r@ == "All raffle tickets was sold."@,
                ContractError::CantFinishGame => r@ == "It is not the end time of the game"@,
                ContractError::CantAccessPrize => r@ == "Can not access prize NFT"@,
                ContractError::IncorrectFunds => r@ == "Incorrect Funds"@,
                ContractError::PayError { .. } => r@
                    == "Must send exactly the ticket price in SEI to enter the raffle"@,
                ContractError::NoParticipants => r@ == "No participants in the raffle"@,
                ContractError::MissingNftContractAddr => r@ == "Missing NFT contract address"@,
                ContractError::CantTransferTokens => r@
                    == "Can not transfer tokens until raffle is finished"@,
            },
    {
        match self {
            ContractError::Std { msg } => msg.clone(),
            ContractError::Unauthorized => "Unauthorized".to_owned(),
            ContractError::CustomError { val } => {
                let head: String = "Custom Error val: ".to_owned();
                head.concat(val.as_str())
            },
            ContractError::WrongGameId => "Wrong Game Id".to_owned(),
            ContractError::RaffleEnded => "Raffle already ended".to_owned(),
            ContractError::RaffleTimeOver => "Raffle Time Over".to_owned(),
            ContractError::RaffleNotActive => "Raffle not started yet".to_owned(),
            ContractError::RaffleSoldOut => "All raffle tickets was sold.".to_owned(),
            ContractError::CantFinishGame => "It is not the end time of the game".to_owned(),
            ContractError::CantAccessPrize => "Can not access prize NFT".to_owned(),
            ContractError::IncorrectFunds => "Incorrect Funds".to_owned(),
            ContractError::PayError { .. } => {
                "Must send exactly the ticket price in SEI to enter the raffle".to_owned()
            },
            ContractError::NoParticipants => "No participants in the raffle".to_owned(),
            ContractError::MissingNftContractAddr => "Missing NFT contract address".to_owned(),
            ContractError::CantTransferTokens => {
                "Can not transfer tokens until raffle is finished".to_owned()
            },
        }
    }
}

} // verus!
