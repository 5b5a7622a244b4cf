use raffle::contract::{
    can_transfer_nft, execute, get_game_status, instantiate, query, query_all_games,
    query_game_info, query_global_info, query_tickets_for_wallet, try_enter_raffle,
    try_receive_nft, try_select_winner_and_transfer_nft_to_winner, try_start_raffle,
    try_transfer_tokens_to_collection_wallet,
};
use raffle::digest::compute_auth_key;
use raffle::error::ContractError;
use raffle::msg::{
    BlockInfo, Coin, Env, ExecuteMsg, InstantiateMsg, Instruction, MessageInfo, QueryAnswer,
    QueryMsg,
};
use raffle::state::{GameStatus, Ledger};
use raffle::winner::select_winner_index;
use sha2::{Digest, Sha256};

const OWNER: &str = "sei1hkwafxahtra74nhtxwwej5p28jyhvev8tl6ed5";
const AUTH_SUFFIX: &str = "sei1j7ah3st8qjr792qjwtnjmj65rqhpedjqf9dnsddj";
const NFT_CONTRACT: &str = "nftcontract";
const NFT_TOKEN: &str = "token-7";
const COLLECTION: &str = "collectionwallet";
const END_TIME_MS: u64 = 2_000_000;
const BEFORE_END_NANOS: u64 = 1_000_000_000; // 1000 ms, inside the sale window
const AFTER_END_NANOS: u64 = 3_000_000_000_000; // 3 000 000 ms, past the window

fn authkey_for(sender: &str) -> String {
    let data = format!("{}{}", sender, AUTH_SUFFIX);
    let mut hasher = Sha256::new();
    hasher.update(data.as_bytes());
    hex::encode(hasher.finalize())
}

fn info(sender: &str, usei: Option<u128>) -> MessageInfo {
    let funds = match usei {
        Some(amount) => vec![Coin { denom: "usei".to_string(), amount }],
        None => Vec::new(),
    };
    MessageInfo { sender: sender.to_string(), funds }
}

fn env_at(time_nanos: u64, height: u64) -> Env {
    Env { block: BlockInfo { height, time_nanos } }
}

fn fresh_ledger() -> Ledger {
    let msg = InstantiateMsg { owner: OWNER.to_string(), authkey: authkey_for("deployer") };
    instantiate(&info("deployer", None), &msg).expect("instantiate must accept a matching key")
}

/// Opens the standard test game: price 100, 10 tickets.
fn open_standard_game(l: &mut Ledger) -> u64 {
    try_start_raffle(
        l,
        &info(OWNER, None),
        100,
        10,
        NFT_CONTRACT.to_string(),
        NFT_TOKEN.to_string(),
        COLLECTION.to_string(),
        END_TIME_MS,
        true,
    )
    .expect("owner must be able to open a game")
}

#[test]
fn count() {
    let owner = OWNER.to_string();
    let sender_str = "";
    let authkey = authkey_for(sender_str);
    let msg = InstantiateMsg { owner: owner.clone(), authkey };
    let ledger = instantiate(&info(sender_str, None), &msg).unwrap();
    assert_eq!(ledger.global.count, 0);
    assert_eq!(ledger.global.owner, owner);
}

#[test]
fn instantiate_rejects_wrong_authkey() {
    let msg = InstantiateMsg {
        owner: OWNER.to_string(),
        authkey: authkey_for("somebody-else"),
    };
    let r = instantiate(&info("deployer", None), &msg);
    assert_eq!(r.unwrap_err(), ContractError::Unauthorized);
}

#[test]
fn compute_auth_key_matches_reference_hash() {
    let sender = "deployer".to_string();
    assert_eq!(compute_auth_key(&sender), authkey_for("deployer"));
}

#[test]
fn start_raffle_assigns_fresh_ids() {
    let mut l = fresh_ledger();
    let id1 = open_standard_game(&mut l);
    let id2 = open_standard_game(&mut l);
    assert_eq!(id1, 1);
    assert_eq!(id2, 2);
    assert_eq!(l.global.count, 2);
    let g = query_game_info(&l, 1).unwrap();
    assert_eq!(g.ticket_price, 100);
    assert_eq!(g.total_ticket_count, 10);
    assert_eq!(g.sold_ticket_count, 0);
    assert_eq!(g.raffle_status, 1);
    assert_eq!(g.nft_contract_addr, Some(NFT_CONTRACT.to_string()));
    assert_eq!(g.end_time, END_TIME_MS);
}

#[test]
fn start_raffle_rejects_non_owner() {
    // Scenario: a stranger tries to open a game.
    let mut l = fresh_ledger();
    let r = try_start_raffle(
        &mut l,
        &info("stranger", None),
        100,
        10,
        NFT_CONTRACT.to_string(),
        NFT_TOKEN.to_string(),
        COLLECTION.to_string(),
        END_TIME_MS,
        true,
    );
    assert_eq!(r.unwrap_err(), ContractError::Unauthorized);
    assert_eq!(l.global.count, 0);
}

#[test]
fn start_raffle_rejects_inaccessible_prize() {
    let mut l = fresh_ledger();
    let r = try_start_raffle(
        &mut l,
        &info(OWNER, None),
        100,
        10,
        NFT_CONTRACT.to_string(),
        NFT_TOKEN.to_string(),
        COLLECTION.to_string(),
        END_TIME_MS,
        false,
    );
    assert_eq!(r.unwrap_err(), ContractError::CantAccessPrize);
}

#[test]
fn enter_with_overpayment_grants_tickets_and_refunds() {
    // Scenario: price 100, 10 tickets; a 250 deposit grants tickets 1 and
    // 2 and refunds 50.
    let mut l = fresh_ledger();
    let id = open_standard_game(&mut l);
    let resp = try_enter_raffle(
        &mut l,
        &env_at(BEFORE_END_NANOS, 1),
        &info("alice", Some(250)),
        id,
    )
    .unwrap();
    assert_eq!(l.games[0].sold_ticket_count, 2);
    let tickets = query_tickets_for_wallet(&l, id, &"alice".to_string());
    assert_eq!(tickets.tickets, vec![1, 2]);
    assert_eq!(
        resp.messages,
        vec![Instruction::Send {
            to_address: "alice".to_string(),
            amount: 50,
            denom: "usei".to_string(),
        }]
    );
}

#[test]
fn enter_with_exact_payment_sends_no_refund() {
    let mut l = fresh_ledger();
    let id = open_standard_game(&mut l);
    let resp = try_enter_raffle(
        &mut l,
        &env_at(BEFORE_END_NANOS, 1),
        &info("alice", Some(300)),
        id,
    )
    .unwrap();
    assert_eq!(l.games[0].sold_ticket_count, 3);
    assert!(resp.messages.is_empty());
}

#[test]
fn enter_below_price_fails() {
    // Scenario: a 50 deposit is below the 100 ticket price.
    let mut l = fresh_ledger();
    let id = open_standard_game(&mut l);
    let r = try_enter_raffle(&mut l, &env_at(BEFORE_END_NANOS, 1), &info("bob", Some(50)), id);
    assert_eq!(r.unwrap_err(), ContractError::IncorrectFunds);
    assert_eq!(l.games[0].sold_ticket_count, 0);
}

#[test]
fn enter_without_usei_counts_as_zero() {
    let mut l = fresh_ledger();
    let id = open_standard_game(&mut l);
    let mut info = info("bob", None);
    info.funds.push(Coin { denom: "uatom".to_string(), amount: 900 });
    let r = try_enter_raffle(&mut l, &env_at(BEFORE_END_NANOS, 1), &info, id);
    assert_eq!(r.unwrap_err(), ContractError::IncorrectFunds);
}

#[test]
fn enter_sold_out_fails() {
    // Scenario: all ten tickets sold, the next purchase fails.
    let mut l = fresh_ledger();
    let id = open_standard_game(&mut l);
    let env = env_at(BEFORE_END_NANOS, 1);
    try_enter_raffle(&mut l, &env, &info("alice", Some(1_000)), id).unwrap();
    assert_eq!(l.games[0].sold_ticket_count, 10);
    let r = try_enter_raffle(&mut l, &env, &info("bob", Some(100)), id);
    assert_eq!(r.unwrap_err(), ContractError::RaffleSoldOut);
}

#[test]
fn enter_capacity_capped_refund_may_exceed_price() {
    // With 8 of 10 tickets sold, a 1000 deposit can pay for 10 but only 2
    // remain: the 800 refund legitimately exceeds one ticket price.
    let mut l = fresh_ledger();
    let id = open_standard_game(&mut l);
    let env = env_at(BEFORE_END_NANOS, 1);
    try_enter_raffle(&mut l, &env, &info("alice", Some(800)), id).unwrap();
    assert_eq!(l.games[0].sold_ticket_count, 8);
    let resp = try_enter_raffle(&mut l, &env, &info("bob", Some(1_000)), id).unwrap();
    assert_eq!(l.games[0].sold_ticket_count, 10);
    assert_eq!(
        resp.messages,
        vec![Instruction::Send {
            to_address: "bob".to_string(),
            amount: 800,
            denom: "usei".to_string(),
        }]
    );
    let tickets = query_tickets_for_wallet(&l, id, &"bob".to_string());
    assert_eq!(tickets.tickets, vec![9, 10]);
}

#[test]
fn enter_after_end_time_fails() {
    let mut l = fresh_ledger();
    let id = open_standard_game(&mut l);
    let r = try_enter_raffle(&mut l, &env_at(AFTER_END_NANOS, 1), &info("bob", Some(100)), id);
    assert_eq!(r.unwrap_err(), ContractError::RaffleTimeOver);
}

#[test]
fn enter_unknown_game_fails() {
    let mut l = fresh_ledger();
    let r = try_enter_raffle(&mut l, &env_at(BEFORE_END_NANOS, 1), &info("bob", Some(100)), 99);
    assert_eq!(r.unwrap_err(), ContractError::WrongGameId);
}

#[test]
fn tickets_are_numbered_in_purchase_order_per_wallet() {
    let mut l = fresh_ledger();
    let id = open_standard_game(&mut l);
    let env = env_at(BEFORE_END_NANOS, 1);
    try_enter_raffle(&mut l, &env, &info("alice", Some(200)), id).unwrap();
    try_enter_raffle(&mut l, &env, &info("bob", Some(100)), id).unwrap();
    try_enter_raffle(&mut l, &env, &info("alice", Some(100)), id).unwrap();
    assert_eq!(l.games[0].sold_ticket_count, 4);
    let alice = query_tickets_for_wallet(&l, id, &"alice".to_string());
    let bob = query_tickets_for_wallet(&l, id, &"bob".to_string());
    assert_eq!(alice.tickets, vec![1, 2, 4]);
    assert_eq!(bob.tickets, vec![3]);
    let carol = query_tickets_for_wallet(&l, id, &"carol".to_string());
    assert!(carol.tickets.is_empty());
}

#[test]
fn sold_count_never_exceeds_total() {
    let mut l = fresh_ledger();
    let id = open_standard_game(&mut l);
    let env = env_at(BEFORE_END_NANOS, 1);
    for buyer in ["a", "b", "c", "d"] {
        let _ = try_enter_raffle(&mut l, &env, &info(buyer, Some(400)), id);
        assert!(l.games[0].sold_ticket_count <= l.games[0].total_ticket_count);
    }
}

#[test]
fn settle_before_end_time_fails() {
    // Scenario: settlement before the end time fails, after it succeeds.
    let mut l = fresh_ledger();
    let id = open_standard_game(&mut l);
    let r = try_select_winner_and_transfer_nft_to_winner(&mut l, &env_at(BEFORE_END_NANOS, 1), id);
    assert_eq!(r.unwrap_err(), ContractError::CantFinishGame);
    assert_eq!(l.games[0].raffle_status, 1);

    let resp =
        try_select_winner_and_transfer_nft_to_winner(&mut l, &env_at(AFTER_END_NANOS, 0), id)
            .unwrap();
    assert_eq!(l.games[0].raffle_status, 0);
    assert_eq!(resp.messages.len(), 1);
    assert!(matches!(resp.messages[0], Instruction::TransferNft { .. }));
}

#[test]
fn settle_unsold_winner_ticket_sends_prize_to_collection_wallet() {
    // One of ten tickets sold; at this block the drawn index is 1, an
    // unsold ticket, so the prize falls back to the collection wallet.
    let mut l = fresh_ledger();
    let id = open_standard_game(&mut l);
    try_enter_raffle(&mut l, &env_at(BEFORE_END_NANOS, 1), &info("alice", Some(100)), id)
        .unwrap();
    let resp =
        try_select_winner_and_transfer_nft_to_winner(&mut l, &env_at(AFTER_END_NANOS, 0), id)
            .unwrap();
    assert_eq!(
        resp.messages,
        vec![Instruction::TransferNft {
            contract_addr: NFT_CONTRACT.to_string(),
            recipient: COLLECTION.to_string(),
            token_id: NFT_TOKEN.to_string(),
        }]
    );
    assert_eq!(l.games[0].raffle_status, 0);
}

#[test]
fn settle_sold_winner_ticket_sends_prize_to_owner() {
    // Five tickets sold to one buyer; at this block the drawn index is 2,
    // a sold ticket, so the buyer receives the prize.
    let mut l = fresh_ledger();
    let id = open_standard_game(&mut l);
    try_enter_raffle(&mut l, &env_at(BEFORE_END_NANOS, 1), &info("alice", Some(500)), id)
        .unwrap();
    assert_eq!(l.games[0].sold_ticket_count, 5);
    let resp =
        try_select_winner_and_transfer_nft_to_winner(&mut l, &env_at(AFTER_END_NANOS, 7), id)
            .unwrap();
    assert_eq!(
        resp.messages,
        vec![Instruction::TransferNft {
            contract_addr: NFT_CONTRACT.to_string(),
            recipient: "alice".to_string(),
            token_id: NFT_TOKEN.to_string(),
        }]
    );
}

#[test]
fn settled_game_is_terminal() {
    // Once ended, both entering and settling fail and the ledger no
    // longer changes.
    let mut l = fresh_ledger();
    let id = open_standard_game(&mut l);
    try_enter_raffle(&mut l, &env_at(BEFORE_END_NANOS, 1), &info("alice", Some(100)), id)
        .unwrap();
    try_select_winner_and_transfer_nft_to_winner(&mut l, &env_at(AFTER_END_NANOS, 0), id)
        .unwrap();
    let snapshot = l.clone();
    let r = try_enter_raffle(&mut l, &env_at(BEFORE_END_NANOS, 1), &info("bob", Some(100)), id);
    assert_eq!(r.unwrap_err(), ContractError::RaffleEnded);
    assert_eq!(l, snapshot);
    let r = try_select_winner_and_transfer_nft_to_winner(&mut l, &env_at(AFTER_END_NANOS, 0), id);
    assert_eq!(r.unwrap_err(), ContractError::RaffleEnded);
    assert_eq!(l, snapshot);
}

#[test]
fn settle_unknown_game_fails() {
    let mut l = fresh_ledger();
    let r = try_select_winner_and_transfer_nft_to_winner(&mut l, &env_at(AFTER_END_NANOS, 0), 3);
    assert_eq!(r.unwrap_err(), ContractError::WrongGameId);
}

#[test]
fn settle_without_prize_reference_fails() {
    let mut l = fresh_ledger();
    let id = open_standard_game(&mut l);
    l.games[0].nft_contract_addr = None;
    let r = try_select_winner_and_transfer_nft_to_winner(&mut l, &env_at(AFTER_END_NANOS, 0), id);
    assert_eq!(r.unwrap_err(), ContractError::MissingNftContractAddr);
}

#[test]
fn winner_selection_is_deterministic() {
    let a = select_winner_index(10, 5, 2_048_000, 7);
    let b = select_winner_index(10, 5, 2_048_000, 7);
    assert_eq!(a, b);
    assert_eq!(a, 2);
}

#[test]
fn winner_index_stays_in_range() {
    for (total, sold, nanos, height) in [
        (1u64, 0u64, 0u64, 0u64),
        (10, 5, 2_048_000, 7),
        (10, 1, AFTER_END_NANOS, 0),
        (7, 7, 123_456_789, 42),
        (1000, 999, 987_654_321_000, 12_345),
    ] {
        let wi = select_winner_index(total, sold, nanos, height);
        assert!(wi < total);
    }
}

#[test]
fn sweep_funds_is_owner_gated() {
    // Scenario: a non-owner sweep fails; the owner's sweep emits exactly
    // the requested transfer.
    let l = fresh_ledger();
    let r = try_transfer_tokens_to_collection_wallet(
        &l,
        &info("stranger", None),
        777,
        "usei".to_string(),
        COLLECTION.to_string(),
    );
    assert_eq!(r.unwrap_err(), ContractError::Unauthorized);
    let resp = try_transfer_tokens_to_collection_wallet(
        &l,
        &info(OWNER, None),
        777,
        "usei".to_string(),
        COLLECTION.to_string(),
    )
    .unwrap();
    assert_eq!(
        resp.messages,
        vec![Instruction::Send {
            to_address: COLLECTION.to_string(),
            amount: 777,
            denom: "usei".to_string(),
        }]
    );
}

#[test]
fn receive_nft_is_informational() {
    let resp = try_receive_nft("sender".to_string(), "token".to_string(), vec![1, 2, 3]).unwrap();
    assert!(resp.messages.is_empty());
}

#[test]
fn game_status_derivation() {
    assert_eq!(get_game_status(0, END_TIME_MS, 1).unwrap(), GameStatus::Ended);
    assert_eq!(get_game_status(1, END_TIME_MS, 3_000).unwrap(), GameStatus::TimeOver);
    assert_eq!(get_game_status(1, END_TIME_MS, 1_999).unwrap(), GameStatus::Active);
    assert_eq!(get_game_status(1, 2_000_000, 2_000).unwrap(), GameStatus::TimeOver);
}

#[test]
fn can_transfer_nft_checks_owner_and_approvals() {
    let me = "contract".to_string();
    assert!(can_transfer_nft(&me, &Vec::new(), &me));
    let approvals = vec!["other".to_string(), "contract".to_string()];
    assert!(can_transfer_nft(&"third".to_string(), &approvals, &me));
    assert!(!can_transfer_nft(&"third".to_string(), &vec!["other".to_string()], &me));
}

#[test]
fn execute_dispatches_enter_and_settle() {
    let mut l = fresh_ledger();
    let id = open_standard_game(&mut l);
    let resp = execute(
        &mut l,
        &env_at(BEFORE_END_NANOS, 1),
        &info("alice", Some(250)),
        ExecuteMsg::EnterRaffle { game_id: id },
        false,
    )
    .unwrap();
    assert_eq!(resp.messages.len(), 1);
    assert_eq!(l.games[0].sold_ticket_count, 2);
    let resp = execute(
        &mut l,
        &env_at(AFTER_END_NANOS, 0),
        &info("anyone", None),
        ExecuteMsg::SelectWinnerAndTransferNFTtoWinner { game_id: id },
        false,
    )
    .unwrap();
    assert_eq!(resp.messages.len(), 1);
    assert_eq!(l.games[0].raffle_status, 0);
}

#[test]
fn execute_dispatches_start_and_sweep() {
    let mut l = fresh_ledger();
    let resp = execute(
        &mut l,
        &env_at(BEFORE_END_NANOS, 1),
        &info(OWNER, None),
        ExecuteMsg::StartRaffle {
            ticket_price: 100,
            total_ticket_count: 10,
            nft_contract_addr: NFT_CONTRACT.to_string(),
            nft_token_id: NFT_TOKEN.to_string(),
            collection_wallet: COLLECTION.to_string(),
            end_time: END_TIME_MS,
        },
        true,
    )
    .unwrap();
    assert!(resp.messages.is_empty());
    assert_eq!(l.global.count, 1);
    let r = execute(
        &mut l,
        &env_at(BEFORE_END_NANOS, 1),
        &info("stranger", None),
        ExecuteMsg::TransferTokensToCollectionWallet {
            amount: 5,
            denom: "usei".to_string(),
            collection_wallet_address: COLLECTION.to_string(),
        },
        false,
    );
    assert_eq!(r.unwrap_err(), ContractError::Unauthorized);
}

#[test]
fn query_reports_ledger_state() {
    let mut l = fresh_ledger();
    let id = open_standard_game(&mut l);
    try_enter_raffle(&mut l, &env_at(BEFORE_END_NANOS, 1), &info("alice", Some(100)), id)
        .unwrap();
    let balance = Coin { denom: "usei".to_string(), amount: 100 };

    let global = query_global_info(&l);
    assert_eq!(global.raffle_count, 1);
    assert_eq!(global.owner, OWNER.to_string());

    match query(&l, &QueryMsg::GetGameInfo { game_id: id }, balance.clone()).unwrap() {
        QueryAnswer::Game(g) => assert_eq!(g.sold_ticket_count, 1),
        other => panic!("unexpected answer {:?}", other),
    }
    match query(
        &l,
        &QueryMsg::GetTicketsForWallet { game_id: id, wallet_addr: "alice".to_string() },
        balance.clone(),
    )
    .unwrap()
    {
        QueryAnswer::Tickets(t) => assert_eq!(t.tickets, vec![1]),
        other => panic!("unexpected answer {:?}", other),
    }
    match query(&l, &QueryMsg::GetAllGames, balance.clone()).unwrap() {
        QueryAnswer::AllGames(a) => {
            assert_eq!(a.games.len(), 1);
            assert_eq!(a.games, query_all_games(&l).games);
        },
        other => panic!("unexpected answer {:?}", other),
    }
    match query(&l, &QueryMsg::GetBalance, balance.clone()).unwrap() {
        QueryAnswer::Balance(b) => assert_eq!(b.balance, balance),
        other => panic!("unexpected answer {:?}", other),
    }
    let err = query(&l, &QueryMsg::GetGameInfo { game_id: 9 }, balance).unwrap_err();
    match err {
        ContractError::Std { msg } => {
            assert_eq!(msg, "Game with provided ID does not exist");
        },
        other => panic!("unexpected error {:?}", other),
    }
}

#[test]
fn error_messages_describe_the_cause() {
    assert_eq!(ContractError::Unauthorized.message(), "Unauthorized");
    assert_eq!(ContractError::RaffleSoldOut.message(), "All raffle tickets was sold.");
    assert_eq!(ContractError::IncorrectFunds.message(), "Incorrect Funds");
    assert_eq!(
        ContractError::CustomError { val: "boom".to_string() }.message(),
        "Custom Error val: boom"
    );
}
