//! Requests into the contract, its answers, and the model of what the
//! host runtime hands every call: the sender, the funds attached, and the
//! block metadata.

use crate::state::{GameState, GlobalState};
use vstd::prelude::*;

verus! {

/// An amount of one fungible denomination.
#[derive(Debug, Clone, PartialEq)]
pub struct Coin {
    /// The denomination, e.g. `usei`.
    pub denom: String,
    /// The amount, in the smallest unit of the denomination.
    pub amount: u128,
}

/// Chain metadata of the block the current call runs in.
#[derive(Debug, Clone, PartialEq)]
pub struct BlockInfo {
    /// Height of the block.
    pub height: u64,
    /// Timestamp of the block, in nanoseconds since the epoch.
    pub time_nanos: u64,
}

/// What the host exposes about the current call's surroundings.
#[derive(Debug, Clone, PartialEq)]
pub struct Env {
    /// The block the call is part of.
    pub block: BlockInfo,
}

/// Who makes the current call and what funds ride along with it.
#[derive(Debug, Clone, PartialEq)]
pub struct MessageInfo {
    /// The calling identity.
    pub sender: String,
    /// The funds deposited with the call.
    pub funds: Vec<Coin>,
}

impl BlockInfo {
    /// The block time in whole seconds, as the host derives it.
    pub open spec fn time_seconds(self) -> int {
        self.time_nanos as int / 1_000_000_000
    }

    /// The block time in milliseconds, against which sale windows are
    /// measured.
    pub open spec fn time_millis(self) -> int {
        self.time_seconds() * 1000
    }
}

/// The one-time initialisation request.
#[derive(Debug, Clone, PartialEq)]
pub struct InstantiateMsg {
    /// The identity that will operate the registry.
    pub owner: String,
    /// Proof of deployment authority: must match the hash the contract
    /// derives from the deploying identity.
    pub authkey: String,
}

/// A mutating request.
#[derive(Debug, Clone, PartialEq)]
pub enum ExecuteMsg {
    /// Notification from the custody service that a prize arrived;
    /// informational only.
    ReceiveNft { sender: String, token_id: String, msg: Vec<u8> },
    /// Open a new game against a specific prize.
    StartRaffle {
        ticket_price: u64,
        total_ticket_count: u64,
        nft_contract_addr: String,
        nft_token_id: String,
        collection_wallet: String,
        end_time: u64,
    },
    /// Buy tickets of a game with the funds attached to the call.
    EnterRaffle { game_id: u64 },
    /// Sweep funds to a collection wallet; operator only.
    TransferTokensToCollectionWallet { amount: u128, denom: String, collection_wallet_address: String },
    /// Settle a game: draw the winner and move the prize.
    SelectWinnerAndTransferNFTtoWinner { game_id: u64 },
}

/// A read-only request.
#[derive(Debug, Clone, PartialEq)]
pub enum QueryMsg {
    /// The registry summary.
    GetGlobalInfo,
    /// One game's full record.
    GetGameInfo { game_id: u64 },
    /// The ticket numbers a wallet owns in a game.
    GetTicketsForWallet { game_id: u64, wallet_addr: String },
    /// Every game ever opened.
    GetAllGames,
    /// The contract's balance in the settlement denomination.
    GetBalance,
}

/// An outbound instruction to an external collaborator, queued by a
/// successful call and performed by the host after the call commits.
#[derive(Debug, Clone, PartialEq)]
pub enum Instruction {
    /// Ask the value-transfer service to move funds.
    Send { to_address: String, amount: u128, denom: String },
    /// Ask the custody service to move the prize.
    TransferNft { contract_addr: String, recipient: String, token_id: String },
}

/// What a successful mutating call hands back to the host: zero or more
/// outbound instructions.
#[derive(Debug, Clone, PartialEq)]
pub struct Response {
    /// The instructions to perform, in order.
    pub messages: Vec<Instruction>,
}

impl Response {
    /// A response with no outbound instructions.
    pub fn empty() -> (r: Response)
        ensures
            r.messages@.len() == 0,
    {
        Response { messages: Vec::new() }
    }
}

/// The registry summary.
#[derive(Debug, Clone, PartialEq)]
pub struct GlobalResponse {
    /// How many games were opened so far.
    pub raffle_count: u64,
    /// The operator of the registry.
    pub owner: String,
}

/// One game's full record.
#[derive(Debug, Clone, PartialEq)]
pub struct GameResponse {
    pub ticket_price: u64,
    pub sold_ticket_count: u64,
    pub total_ticket_count: u64,
    pub raffle_status: u8,
    pub nft_contract_addr: Option<String>,
    pub nft_token_id: String,
    pub owner: String,
    pub collection_wallet: String,
    pub end_time: u64,
}

/// The ticket numbers a wallet owns in one game.
#[derive(Debug, Clone, PartialEq)]
pub struct WalletTicketResponse {
    /// One-based ticket numbers, in purchase order; empty if the wallet
    /// owns none.
    pub tickets: Vec<u64>,
}

/// Every game ever opened, in opening order.
#[derive(Debug, Clone, PartialEq)]
pub struct AllGamesResponse {
    pub games: Vec<GameState>,
}

/// The contract's balance in the settlement denomination.
#[derive(Debug, Clone, PartialEq)]
pub struct BalanceResponse {
    pub balance: Coin,
}

/// The answer to a read-only request.
#[derive(Debug, Clone, PartialEq)]
pub enum QueryAnswer {
    Global(GlobalResponse),
    Game(GameResponse),
    Tickets(WalletTicketResponse),
    AllGames(AllGamesResponse),
    Balance(BalanceResponse),
}

/// The view of a global record as a summary answer.
pub open spec fn global_response_matches(r: GlobalResponse, g: GlobalState) -> bool {
    &&& r.raffle_count == g.count
    &&& r.owner@ == g.owner@
}

/// The view of a game record as a query answer: every field carried over.
pub open spec fn game_response_matches(r: GameResponse, g: GameState) -> bool {
    &&& r.ticket_price == g.ticket_price
    &&& r.sold_ticket_count == g.sold_ticket_count
    &&& r.total_ticket_count == g.total_ticket_count
    &&& r.raffle_status == g.raffle_status
    &&& match (r.nft_contract_addr, g.nft_contract_addr) {
        (Some(a), Some(b)) => a@ == b@,
        (None, None) => true,
        _ => false,
    }
    &&& r.nft_token_id@ == g.nft_token_id@
    &&& r.owner@ == g.owner@
    &&& r.collection_wallet@ == g.collection_wallet@
    &&& r.end_time == g.end_time
}

} // verus!
