//! The raffle state machine: validation, ticket allocation, winner
//! selection and settlement, and the read-only queries.
//!
//! Every mutating function takes the whole [`Ledger`] by mutable
//! reference and either commits its transition or returns an error with
//! the ledger untouched, mirroring the all-or-nothing transaction model
//! of the host runtime. Everything the outside world must then do —
//! refunds, prize transfers — comes back as [`Instruction`] values.

use crate::digest::{compute_auth_key, expected_auth_key};
use crate::error::ContractError;
use crate::msg::{
    AllGamesResponse, BalanceResponse, Coin, Env, ExecuteMsg, GameResponse, GlobalResponse,
    InstantiateMsg, Instruction, MessageInfo, QueryAnswer, QueryMsg, Response, WalletTicketResponse,
    game_response_matches, global_response_matches,
};
use crate::state::{
    GameState, GameStatus, Ledger, TicketLedger, WalletEntry, lemma_ticket_numbers_absent,
    lemma_ticket_numbers_extend, lemma_ticket_numbers_extend_other, ticket_numbers_of,
    wallets_wf, RAFFLE_ACTIVE, RAFFLE_ENDED,
};
use crate::winner::{seed_assist_spec, seed_factor_spec, winner_index_spec, select_winner_index};
use vstd::arithmetic::div_mod::{
    lemma_div_is_ordered, lemma_fundamental_div_mod, lemma_mod_bound,
};
use vstd::arithmetic::mul::{lemma_mul_inequality, lemma_mul_is_commutative};
use vstd::math::min;
use vstd::pervasive::VecAdditionalExecFns;
use vstd::prelude::*;

verus! {

/// The settlement denomination: the only denomination a deposit counts
/// in.
pub open spec fn usei() -> Seq<char> {
    "usei"@
}

/// The amount deposited in denomination `denom`: the amount of the first
/// matching coin, or zero if none matches.
pub open spec fn funds_amount(funds: Seq<Coin>, denom: Seq<char>) -> u128
    decreases funds.len(),
{
    if funds.len() == 0 {
        0
    } else if funds.first().denom@ == denom {
        funds.first().amount
    } else {
        funds_amount(funds.drop_first(), denom)
    }
}

/// While no coin among the first `i` matches, the deposited amount is
/// decided by the rest.
proof fn lemma_funds_amount_prefix_miss(funds: Seq<Coin>, denom: Seq<char>, i: int)
    requires
        0 <= i <= funds.len(),
        forall|k: int| 0 <= k < i ==> (#[trigger] funds[k]).denom@ != denom,
    ensures
        funds_amount(funds, denom) == funds_amount(funds.skip(i), denom),
    decreases i,
{
    if i > 0 {
        assert(funds[0].denom@ != denom);
        assert(funds.drop_first().skip(i - 1) =~= funds.skip(i));
        assert(forall|k: int|
            0 <= k < i - 1 ==> (#[trigger] funds.drop_first()[k]).denom@ != denom) by {
            assert(forall|k: int|
                0 <= k < i - 1 ==> funds.drop_first()[k] == #[trigger] funds[k + 1]);
        }
        lemma_funds_amount_prefix_miss(funds.drop_first(), denom, i - 1);
    } else {
        assert(funds.skip(0) =~= funds);
    }
}

/// The amount of settlement-denomination funds attached to a call: the
/// first `usei` coin counts, any other coin is ignored.
fn deposited_usei(funds: &Vec<Coin>) -> (r: u128)
    ensures
        r == funds_amount(funds@, usei()),
{
    let usei_denom: String = "usei".to_owned();
    let n = funds.len();
    let mut i: usize = 0;
    while i < n
        invariant
            i <= n,
            n == funds@.len(),
            usei_denom@ == usei(),
            forall|k: int| 0 <= k < i ==> (#[trigger] funds@[k]).denom@ != usei(),
        decreases n - i,
    {
        if funds[i].denom == usei_denom {
            proof {
                lemma_funds_amount_prefix_miss(funds@, usei(), i as int);
                assert(funds@.skip(i as int).first() == funds@[i as int]);
            }
            return funds[i].amount;
        }
        i += 1;
    }
    proof {
        lemma_funds_amount_prefix_miss(funds@, usei(), n as int);
    }
    0
}

/// Initialise the registry. The caller must present the authorization
/// key derived from its own identity; with it, a fresh ledger with no
/// games is created, operated by the owner the request names.
pub fn instantiate(info: &MessageInfo, msg: &InstantiateMsg) -> (r: Result<Ledger, ContractError>)
    ensures
        msg.authkey@ == expected_auth_key(info.sender@) ==> (r matches Ok(l) && l.wf()
            && l.global.count == 0 && l.global.owner@ == msg.owner@ && l.games@.len() == 0),
        msg.authkey@ != expected_auth_key(info.sender@) ==> r == Err::<Ledger, ContractError>(
            ContractError::Unauthorized,
        ),
{
    let key = compute_auth_key(&info.sender);
    if !(key == msg.authkey) {
        return Err(ContractError::Unauthorized);
    }
    Ok(Ledger::new(msg.owner.clone()))
}

/// The lifecycle phase of a game, derived from its stored status, its
/// end time, and the current time in seconds.
pub open spec fn game_status_spec(raffle_status: u8, end_time: u64, cur_time: u64) -> GameStatus {
    if raffle_status == RAFFLE_ENDED {
        GameStatus::Ended
    } else if cur_time as int * 1000 >= end_time as int {
        GameStatus::TimeOver
    } else {
        GameStatus::Active
    }
}

/// Derive the current status of a game from its stored status field, its
/// end time (milliseconds) and the current time (seconds).
pub fn get_game_status(raffle_status: u8, end_time: u64, cur_time: u64) -> (r: Result<
    GameStatus,
    ContractError,
>)
    requires
        cur_time as int * 1000 <= u64::MAX,
    ensures
        r == Ok::<GameStatus, ContractError>(game_status_spec(raffle_status, end_time, cur_time)),
{
    if raffle_status == 0 {
        Ok(GameStatus::Ended)
    } else if cur_time * 1000 >= end_time {
        Ok(GameStatus::TimeOver)
    } else {
        Ok(GameStatus::Active)
    }
}

/// Whether the prize is transferable by this contract, judged from the
/// custody service's answer to an ownership query: the contract must be
/// the owner of the token or appear among its approved spenders.
pub fn can_transfer_nft(owner: &String, approvals: &Vec<String>, operator: &String) -> (r: bool)
    ensures
        r == (owner@ == operator@ || exists|i: int|
            0 <= i < approvals@.len() && (#[trigger] approvals@[i])@ == operator@),
{
    if *owner == *operator {
        return true;
    }
    let n = approvals.len();
    let mut i: usize = 0;
    while i < n
        invariant
            i <= n,
            n == approvals@.len(),
            forall|k: int| 0 <= k < i ==> (#[trigger] approvals@[k])@ != operator@,
        decreases n - i,
    {
        if approvals[i] == *operator {
            return true;
        }
        i += 1;
    }
    false
}

/// Acknowledge a prize arriving from the custody service. Informational
/// only: the ledger is not touched and nothing is emitted.
pub fn try_receive_nft(_sender: String, _token_id: String, _msg: Vec<u8>) -> (r: Result<
    Response,
    ContractError,
>)
    ensures
        r matches Ok(resp) && resp.messages@.len() == 0,
{
    Ok(Response::empty())
}

/// Decision of a fund sweep: only the registry operator may sweep.
pub open spec fn sweep_check(l: Ledger, info: MessageInfo) -> Result<(), ContractError> {
    if info.sender@ != l.global.owner@ {
        Err(ContractError::Unauthorized)
    } else {
        Ok(())
    }
}

/// Move an arbitrary amount of one denomination to a collection wallet.
/// Authorization-gated and otherwise stateless: the ledger is only read,
/// and the emitted instruction is not checked against any balance —
/// that is the value-transfer service's concern.
pub fn try_transfer_tokens_to_collection_wallet(
    l: &Ledger,
    info: &MessageInfo,
    amount: u128,
    denom: String,
    collection_wallet_address: String,
) -> (r: Result<Response, ContractError>)
    ensures
        match sweep_check(*l, *info) {
            Err(e) => r == Err::<Response, ContractError>(e),
            Ok(()) => r matches Ok(resp) && resp.messages@ =~= seq![
                (Instruction::Send {
                    to_address: collection_wallet_address,
                    amount,
                    denom,
                }),
            ],
        },
{
    if !(info.sender == l.global.owner) {
        return Err(ContractError::Unauthorized);
    }
    let mut messages: Vec<Instruction> = Vec::new();
    messages.push(
        Instruction::Send { to_address: collection_wallet_address, amount, denom },
    );
    Ok(Response { messages })
}

/// A copy of an optional identity, equal to the original.
fn clone_opt_string(o: &Option<String>) -> (r: Option<String>)
    ensures
        r == *o,
{
    match o {
        Some(s) => Some(s.clone()),
        None => None,
    }
}

/// A copy of a game record, equal to the original.
fn clone_game(g: &GameState) -> (r: GameState)
    ensures
        r == *g,
{
    GameState {
        ticket_price: g.ticket_price,
        sold_ticket_count: g.sold_ticket_count,
        total_ticket_count: g.total_ticket_count,
        raffle_status: g.raffle_status,
        nft_contract_addr: clone_opt_string(&g.nft_contract_addr),
        nft_token_id: g.nft_token_id.clone(),
        owner: g.owner.clone(),
        collection_wallet: g.collection_wallet.clone(),
        end_time: g.end_time,
    }
}

/// The registry summary: game count and operator.
pub fn query_global_info(l: &Ledger) -> (r: GlobalResponse)
    ensures
        global_response_matches(r, l.global),
{
    GlobalResponse { raffle_count: l.global.count, owner: l.global.owner.clone() }
}

/// One game's full record, or an opaque ledger error when the id is
/// unknown.
pub fn query_game_info(l: &Ledger, game_id: u64) -> (r: Result<GameResponse, ContractError>)
    ensures
        l.has_game(game_id) ==> (r matches Ok(resp) && game_response_matches(
            resp,
            l.game(game_id),
        )),
        !l.has_game(game_id) ==> (r matches Err(e) && e matches ContractError::Std { msg }
            && msg@ == "Game with provided ID does not exist"@),
{
    if game_id < 1 || game_id > l.games.len() as u64 {
        return Err(
            ContractError::Std { msg: "Game with provided ID does not exist".to_owned() },
        );
    }
    let g = &l.games[(game_id - 1) as usize];
    Ok(
        GameResponse {
            ticket_price: g.ticket_price,
            sold_ticket_count: g.sold_ticket_count,
            total_ticket_count: g.total_ticket_count,
            raffle_status: g.raffle_status,
            nft_contract_addr: clone_opt_string(&g.nft_contract_addr),
            nft_token_id: g.nft_token_id.clone(),
            owner: g.owner.clone(),
            collection_wallet: g.collection_wallet.clone(),
            end_time: g.end_time,
        },
    )
}

/// The ticket numbers a wallet owns in a game, in purchase order; empty
/// when the wallet owns none or the game id is unknown.
pub fn query_tickets_for_wallet(l: &Ledger, game_id: u64, wallet_addr: &String) -> (r:
    WalletTicketResponse)
    requires
        l.wf(),
    ensures
        l.has_game(game_id) ==> r.tickets@ == ticket_numbers_of(
            l.game_tickets(game_id).owners_view(),
            wallet_addr@,
        ),
        !l.has_game(game_id) ==> r.tickets@.len() == 0,
{
    if game_id < 1 || game_id > l.tickets.len() as u64 {
        return WalletTicketResponse { tickets: Vec::new() };
    }
    let t = &l.tickets[(game_id - 1) as usize];
    let n = t.wallets.len();
    let mut j: usize = 0;
    while j < n
        invariant
            j <= n,
            n == t.wallets@.len(),
            l.wf(),
            l.has_game(game_id),
            t == &l.tickets[game_id - 1],
            forall|k: int| 0 <= k < j ==> (#[trigger] t.wallets@[k]).wallet@ != wallet_addr@,
        decreases n - j,
    {
        if t.wallets[j].wallet == *wallet_addr {
            let mut tickets: Vec<u64> = Vec::new();
            let e = &t.wallets[j];
            let m = e.ticket_numbers.len();
            let mut k: usize = 0;
            while k < m
                invariant
                    k <= m,
                    m == e.ticket_numbers@.len(),
                    tickets@ == e.ticket_numbers@.take(k as int),
                decreases m - k,
            {
                tickets.push(e.ticket_numbers[k]);
                proof {
                    assert(tickets@ =~= e.ticket_numbers@.take(k + 1));
                }
                k += 1;
            }
            proof {
                assert(e.ticket_numbers@.take(m as int) =~= e.ticket_numbers@);
            }
            return WalletTicketResponse { tickets };
        }
        j += 1;
    }
    proof {
        let owners = l.game_tickets(game_id).owners_view();
        assert forall|i: int| 0 <= i < owners.len() implies owners[i] != wallet_addr@ by {
            if owners[i] == wallet_addr@ {
                let jj = choose|jj: int|
                    0 <= jj < t.wallets@.len() && (#[trigger] t.wallets@[jj]).wallet@
                        == owners[i];
                assert(t.wallets@[jj].wallet@ != wallet_addr@);
            }
        }
        lemma_ticket_numbers_absent(owners, wallet_addr@);
    }
    WalletTicketResponse { tickets: Vec::new() }
}

/// Every game ever opened, in opening order.
pub fn query_all_games(l: &Ledger) -> (r: AllGamesResponse)
    ensures
        r.games@ == l.games@,
{
    let n = l.games.len();
    let mut games: Vec<GameState> = Vec::new();
    let mut i: usize = 0;
    while i < n
        invariant
            i <= n,
            n == l.games@.len(),
            games@ == l.games@.take(i as int),
        decreases n - i,
    {
        games.push(clone_game(&l.games[i]));
        proof {
            assert(games@ =~= l.games@.take(i + 1));
        }
        i += 1;
    }
    proof {
        assert(l.games@.take(n as int) =~= l.games@);
    }
    AllGamesResponse { games }
}

/// Answer a read-only request against the current ledger. The contract's
/// own bank balance is not part of the ledger model, so the host hands
/// the queried balance in and it is echoed for `GetBalance`.
pub fn query(l: &Ledger, msg: &QueryMsg, contract_balance: Coin) -> (r: Result<
    QueryAnswer,
    ContractError,
>)
    requires
        l.wf(),
    ensures
        match msg {
            QueryMsg::GetGlobalInfo => r matches Ok(QueryAnswer::Global(g))
                && global_response_matches(g, l.global),
            QueryMsg::GetGameInfo { game_id } => {
                if l.has_game(*game_id) {
                    r matches Ok(QueryAnswer::Game(g)) && game_response_matches(
                        g,
                        l.game(*game_id),
                    )
                } else {
                    r matches Err(e) && e matches ContractError::Std { msg }
                        && msg@ == "Game with provided ID does not exist"@
                }
            },
            QueryMsg::GetTicketsForWallet { game_id, wallet_addr } => {
                r matches Ok(QueryAnswer::Tickets(t)) && t.tickets@ == if l.has_game(*game_id) {
                    ticket_numbers_of(l.game_tickets(*game_id).owners_view(), wallet_addr@)
                } else {
                    Seq::<u64>::empty()
                }
            },
            QueryMsg::GetAllGames => r matches Ok(QueryAnswer::AllGames(a)) && a.games@
                == l.games@,
            QueryMsg::GetBalance => r matches Ok(QueryAnswer::Balance(b)) && b.balance
                == contract_balance,
        },
{
    match msg {
        QueryMsg::GetGlobalInfo => Ok(QueryAnswer::Global(query_global_info(l))),
        QueryMsg::GetGameInfo { game_id } => {
            match query_game_info(l, *game_id) {
                Ok(resp) => Ok(QueryAnswer::Game(resp)),
                Err(e) => Err(e),
            }
        },
        QueryMsg::GetTicketsForWallet { game_id, wallet_addr } => {
            let resp = query_tickets_for_wallet(l, *game_id, wallet_addr);
            proof {
                if !l.has_game(*game_id) {
                    assert(resp.tickets@ =~= Seq::<u64>::empty());
                }
            }
            Ok(QueryAnswer::Tickets(resp))
        },
        QueryMsg::GetAllGames => Ok(QueryAnswer::AllGames(query_all_games(l))),
        QueryMsg::GetBalance => Ok(QueryAnswer::Balance(BalanceResponse { balance: contract_balance })),
    }
}

/// The identity an optional reference holds, or the empty identity.
pub open spec fn opt_view(o: Option<String>) -> Seq<char> {
    match o {
        Some(s) => s@,
        None => Seq::empty(),
    }
}

/// Decision of opening a game: only the registry operator may open, and
/// only against a prize this contract can move.
pub open spec fn start_check(l: Ledger, info: MessageInfo, prize_transferable: bool) -> Result<
    (),
    ContractError,
> {
    if info.sender@ != l.global.owner@ {
        Err(ContractError::Unauthorized)
    } else if !prize_transferable {
        Err(ContractError::CantAccessPrize)
    } else {
        Ok(())
    }
}

/// The ledger change of opening one game: the counter moves up by one
/// and a fresh record with an empty ticket pool hangs off the new id.
pub open spec fn start_transition(
    pre: Ledger,
    post: Ledger,
    info: MessageInfo,
    ticket_price: u64,
    total_ticket_count: u64,
    nft_contract_addr: String,
    nft_token_id: String,
    collection_wallet: String,
    end_time: u64,
) -> bool {
    let n = pre.games@.len() as int;
    &&& post.global.count == pre.global.count + 1
    &&& post.global.owner == pre.global.owner
    &&& post.games@.len() == n + 1
    &&& post.tickets@.len() == n + 1
    &&& forall|i: int| 0 <= i < n ==> #[trigger] post.games@[i] == pre.games@[i]
    &&& forall|i: int| 0 <= i < n ==> #[trigger] post.tickets@[i] == pre.tickets@[i]
    &&& post.games@[n] == (GameState {
        ticket_price,
        sold_ticket_count: 0,
        total_ticket_count,
        raffle_status: RAFFLE_ACTIVE,
        nft_contract_addr: Some(nft_contract_addr),
        nft_token_id,
        owner: info.sender,
        collection_wallet,
        end_time,
    })
    &&& post.tickets@[n].owners@.len() == 0
    &&& post.tickets@[n].wallets@.len() == 0
}

/// Open a new game against a specific prize. `prize_transferable` is the
/// custody service's answer to an ownership query for the prize made by
/// the host on behalf of this call: whether this contract currently owns
/// or is approved to move it.
pub fn try_start_raffle(
    l: &mut Ledger,
    info: &MessageInfo,
    ticket_price: u64,
    total_ticket_count: u64,
    nft_contract_addr: String,
    nft_token_id: String,
    collection_wallet: String,
    end_time: u64,
    prize_transferable: bool,
) -> (r: Result<u64, ContractError>)
    requires
        old(l).wf(),
        old(l).global.count < u64::MAX,
    ensures
        final(l).wf(),
        match start_check(*old(l), *info, prize_transferable) {
            Err(e) => r == Err::<u64, ContractError>(e) && *final(l) == *old(l),
            Ok(()) => r == Ok::<u64, ContractError>((old(l).global.count + 1) as u64)
                && start_transition(
                *old(l),
                *final(l),
                *info,
                ticket_price,
                total_ticket_count,
                nft_contract_addr,
                nft_token_id,
                collection_wallet,
                end_time,
            ),
        },
{
    if !(info.sender == l.global.owner) {
        return Err(ContractError::Unauthorized);
    }
    if !prize_transferable {
        return Err(ContractError::CantAccessPrize);
    }
    let count_tmp = l.global.count + 1;
    l.global.count = count_tmp;
    let game_state = GameState {
        raffle_status: RAFFLE_ACTIVE,
        sold_ticket_count: 0,
        ticket_price,
        total_ticket_count,
        nft_contract_addr: Some(nft_contract_addr),
        nft_token_id,
        owner: info.sender.clone(),
        collection_wallet,
        end_time,
    };
    l.games.push(game_state);
    l.tickets.push(TicketLedger { owners: Vec::new(), wallets: Vec::new() });
    Ok(count_tmp)
}

/// Decision of settling a game: the game must exist, still be active,
/// its sale window must be over, and its prize reference must be known.
pub open spec fn settle_check(l: Ledger, env: Env, game_id: u64) -> Result<(), ContractError> {
    if !l.has_game(game_id) {
        Err(ContractError::WrongGameId)
    } else if l.game(game_id).raffle_status == RAFFLE_ENDED {
        Err(ContractError::RaffleEnded)
    } else if l.game(game_id).end_time as int > env.block.time_millis() {
        Err(ContractError::CantFinishGame)
    } else if l.game(game_id).nft_contract_addr is None {
        Err(ContractError::MissingNftContractAddr)
    } else {
        Ok(())
    }
}

/// The 64-bit seed arithmetic of the draw stays in range for this game
/// under this block's metadata.
pub open spec fn settle_arith_ok(g: GameState, env: Env) -> bool {
    let total = g.total_ticket_count as int;
    let sold = g.sold_ticket_count as int;
    let nanos = env.block.time_nanos as int;
    let height = env.block.height as int;
    &&& total >= 1
    &&& (height % total) * 256 <= u64::MAX
    &&& seed_factor_spec(total, nanos, height) <= u64::MAX
    &&& (sold % total) * seed_factor_spec(total, nanos, height) <= u64::MAX
    &&& nanos % total + height + seed_assist_spec(total, sold, nanos, height) <= u64::MAX
}

/// What a settlement call demands of its inputs: whenever the draw is
/// reached (the game exists, is active and its sale window is over), its
/// arithmetic must stay in range: on any other input the 64-bit
/// computation aborts the whole transaction instead of returning.
pub open spec fn settle_requires(l: Ledger, env: Env, game_id: u64) -> bool {
    (l.has_game(game_id) && l.game(game_id).raffle_status != RAFFLE_ENDED && l.game(
        game_id,
    ).end_time as int <= env.block.time_millis()) ==> settle_arith_ok(l.game(game_id), env)
}

/// The recipient of the prize at settlement: the owner of the winning
/// ticket when it was sold, else the collection wallet of the game.
pub open spec fn settle_recipient(l: Ledger, env: Env, game_id: u64) -> Seq<char> {
    let g = l.game(game_id);
    let wi = winner_index_spec(
        g.total_ticket_count as int,
        g.sold_ticket_count as int,
        env.block.time_nanos as int,
        env.block.height as int,
    );
    if wi < g.sold_ticket_count {
        l.game_tickets(game_id).owners_view()[wi]
    } else {
        g.collection_wallet@
    }
}

/// The ledger change of settling one game: its status flips to ended and
/// nothing else moves.
pub open spec fn settle_transition(pre: Ledger, post: Ledger, game_id: u64) -> bool {
    let gi = game_id - 1;
    &&& post.global == pre.global
    &&& post.tickets == pre.tickets
    &&& post.games@ == pre.games@.update(
        gi,
        (GameState { raffle_status: RAFFLE_ENDED, ..pre.games@[gi] }),
    )
}

/// An instruction asking the custody contract `contract` to move token
/// `token` to `recipient`.
pub open spec fn prize_message(
    m: Instruction,
    contract: Seq<char>,
    recipient: Seq<char>,
    token: Seq<char>,
) -> bool {
    m matches Instruction::TransferNft { contract_addr, recipient: to, token_id }
        && contract_addr@ == contract && to@ == recipient && token_id@ == token
}

/// Settle a game: draw the winning ticket index from the block metadata,
/// flip the game to ended, and emit exactly one prize transfer — to the
/// winning ticket's owner when that ticket was sold, else to the
/// collection wallet. Anyone may settle; only time gates it.
pub fn try_select_winner_and_transfer_nft_to_winner(
    l: &mut Ledger,
    env: &Env,
    game_id: u64,
) -> (r: Result<Response, ContractError>)
    requires
        old(l).wf(),
        settle_requires(*old(l), *env, game_id),
    ensures
        final(l).wf(),
        match settle_check(*old(l), *env, game_id) {
            Err(e) => r == Err::<Response, ContractError>(e) && *final(l) == *old(l),
            Ok(()) => {
                &&& r matches Ok(resp)
                &&& settle_transition(*old(l), *final(l), game_id)
                &&& resp.messages@.len() == 1
                &&& prize_message(
                    resp.messages@[0],
                    opt_view(old(l).game(game_id).nft_contract_addr),
                    settle_recipient(*old(l), *env, game_id),
                    old(l).game(game_id).nft_token_id@,
                )
            },
        },
{
    let n_games = l.games.len();
    if game_id < 1 || game_id > n_games as u64 {
        return Err(ContractError::WrongGameId);
    }
    let idx = (game_id - 1) as usize;
    let g = &l.games[idx];
    if g.raffle_status == RAFFLE_ENDED {
        return Err(ContractError::RaffleEnded);
    }
    proof {
        lemma_div_is_ordered(env.block.time_nanos as int, u64::MAX as int, 1_000_000_000);
    }
    let now_ms = env.block.time_nanos / 1_000_000_000 * 1000;
    if g.end_time > now_ms {
        return Err(ContractError::CantFinishGame);
    }
    let nft_contract = match &g.nft_contract_addr {
        Some(a) => a.clone(),
        None => {
            return Err(ContractError::MissingNftContractAddr);
        },
    };
    let winner_index = select_winner_index(
        g.total_ticket_count,
        g.sold_ticket_count,
        env.block.time_nanos,
        env.block.height,
    );
    let recipient: String = if winner_index < g.sold_ticket_count {
        let t = &l.tickets[idx];
        let n_owners = t.owners.len();
        proof {
            assert(t.owners@.len() == old(l).game(game_id).sold_ticket_count);
            assert(winner_index < n_owners as u64);
        }
        t.owners[winner_index as usize].clone()
    } else {
        l.games[idx].collection_wallet.clone()
    };
    proof {
        let pre = *old(l);
        let wi = winner_index_spec(
            pre.game(game_id).total_ticket_count as int,
            pre.game(game_id).sold_ticket_count as int,
            env.block.time_nanos as int,
            env.block.height as int,
        );
        assert(pre.game_tickets(game_id).owners_view().len() == pre.game(
            game_id,
        ).sold_ticket_count);
        if wi < pre.game(game_id).sold_ticket_count {
            assert(pre.game_tickets(game_id).owners_view()[wi] == pre.game_tickets(
                game_id,
            ).owners@[wi].deep_view());
        }
        assert(recipient@ == settle_recipient(pre, *env, game_id));
    }
    let token_id = l.games[idx].nft_token_id.clone();
    let mut new_game = clone_game(&l.games[idx]);
    new_game.raffle_status = RAFFLE_ENDED;
    l.games.set(idx, new_game);
    proof {
        let pre = *old(l);
        let gi = game_id - 1;
        assert(l.games@ =~= pre.games@.update(
            gi as int,
            (GameState { raffle_status: RAFFLE_ENDED, ..pre.games@[gi as int] }),
        ));
        assert forall|i: int| 0 <= i < l.games@.len() implies (#[trigger] l.games@[i]).wf() by {
            if i != gi as int {
                assert(l.games@[i] == pre.games@[i]);
            }
        }
        assert forall|i: int|
            0 <= i < l.games@.len() implies (#[trigger] l.tickets@[i]).wf(
            l.games@[i].sold_ticket_count as int,
        ) by {
            assert(l.tickets@[i] == pre.tickets@[i]);
            assert(l.games@[i].sold_ticket_count == pre.games@[i].sold_ticket_count);
        }
    }
    let mut messages: Vec<Instruction> = Vec::new();
    messages.push(Instruction::TransferNft { contract_addr: nft_contract, recipient, token_id });
    Ok(Response { messages })
}

/// Decision of a ticket purchase, in the order the checks are made: the
/// game must exist, still be active, its sale window still open, tickets
/// still remaining, and the deposit must cover at least one ticket.
pub open spec fn enter_check(l: Ledger, env: Env, info: MessageInfo, game_id: u64) -> Result<
    (),
    ContractError,
> {
    if !l.has_game(game_id) {
        Err(ContractError::WrongGameId)
    } else {
        let g = l.game(game_id);
        if g.raffle_status == RAFFLE_ENDED {
            Err(ContractError::RaffleEnded)
        } else if g.end_time as int <= env.block.time_millis() {
            Err(ContractError::RaffleTimeOver)
        } else if g.sold_ticket_count >= g.total_ticket_count {
            Err(ContractError::RaffleSoldOut)
        } else if (funds_amount(info.funds@, usei()) as int) < g.ticket_price as int {
            Err(ContractError::IncorrectFunds)
        } else {
            Ok(())
        }
    }
}

/// How many tickets a deposit buys: what it can pay for, clamped to the
/// remaining capacity.
pub open spec fn granted_spec(deposit: int, price: int, remaining: int) -> int {
    min(deposit / price, remaining)
}

/// What flows back to the buyer: the deposit minus the price of every
/// granted ticket.
pub open spec fn refund_spec(deposit: int, price: int, remaining: int) -> int {
    deposit - price * granted_spec(deposit, price, remaining)
}

/// The tickets granted by a purchase against game `g`.
pub open spec fn enter_granted(g: GameState, deposit: u128) -> int {
    granted_spec(
        deposit as int,
        g.ticket_price as int,
        g.total_ticket_count - g.sold_ticket_count,
    )
}

/// The one-based ticket numbers `start + 1 .. start + k`, in order.
pub open spec fn new_ticket_numbers(start: int, k: int) -> Seq<u64> {
    Seq::new(k as nat, |j: int| (start + 1 + j) as u64)
}

/// The ledger change of a successful purchase: the game's sold count
/// grows by the granted tickets, the granted indices are appended to the
/// primary map under the buyer, and the buyer's derived list grows by
/// the matching one-based numbers — everything else stays as it was.
pub open spec fn enter_transition(
    pre: Ledger,
    post: Ledger,
    game_id: u64,
    sender: String,
    deposit: u128,
) -> bool {
    let gi = game_id - 1;
    let g = pre.games@[gi];
    let k = enter_granted(g, deposit);
    let pre_t = pre.tickets@[gi];
    let post_t = post.tickets@[gi];
    let pre_e = pre_t.wallets@;
    let post_e = post_t.wallets@;
    &&& post.global == pre.global
    &&& post.games@ == pre.games@.update(
        gi,
        (GameState { sold_ticket_count: (g.sold_ticket_count + k) as u64, ..g }),
    )
    &&& post.tickets@.len() == pre.tickets@.len()
    &&& forall|i: int|
        0 <= i < pre.tickets@.len() && i != gi ==> #[trigger] post.tickets@[i] == pre.tickets@[i]
    &&& post_t.owners@ == pre_t.owners@ + Seq::new(k as nat, |j: int| sender)
    &&& if exists|j: int| 0 <= j < pre_e.len() && (#[trigger] pre_e[j]).wallet@ == sender@ {
        let j = choose|j: int| 0 <= j < pre_e.len() && (#[trigger] pre_e[j]).wallet@ == sender@;
        &&& post_e.len() == pre_e.len()
        &&& forall|j2: int|
            0 <= j2 < pre_e.len() && j2 != j ==> #[trigger] post_e[j2] == pre_e[j2]
        &&& post_e[j].wallet == pre_e[j].wallet
        &&& post_e[j].ticket_numbers@ == pre_e[j].ticket_numbers@ + new_ticket_numbers(
            g.sold_ticket_count as int,
            k,
        )
    } else {
        &&& post_e.len() == pre_e.len() + 1
        &&& forall|j2: int| 0 <= j2 < pre_e.len() ==> #[trigger] post_e[j2] == pre_e[j2]
        &&& post_e.last().wallet == sender
        &&& post_e.last().ticket_numbers@ == new_ticket_numbers(g.sold_ticket_count as int, k)
    }
}

/// The refund a successful purchase emits: one transfer back to the
/// buyer when the deposit was not consumed whole, nothing otherwise.
pub open spec fn refund_messages(msgs: Seq<Instruction>, sender: Seq<char>, amount: int) -> bool {
    if amount > 0 {
        msgs.len() == 1 && (msgs[0] matches Instruction::Send { to_address, amount: a, denom }
            && to_address@ == sender && a as int == amount && denom@ == usei())
    } else {
        msgs.len() == 0
    }
}

/// Buy tickets of a game with the funds deposited alongside the call.
///
/// The deposit buys `deposit / price` tickets, clamped to the remaining
/// capacity; the unconsumed remainder of the deposit flows back to the
/// buyer. The precondition asks for a positive ticket price whenever the
/// allocation is reached: on a zero price the division aborts the whole
/// transaction instead of returning.
pub fn try_enter_raffle(l: &mut Ledger, env: &Env, info: &MessageInfo, game_id: u64) -> (r:
    Result<Response, ContractError>)
    requires
        old(l).wf(),
        enter_check(*old(l), *env, *info, game_id) is Ok ==> old(l).game(
            game_id,
        ).ticket_price >= 1,
    ensures
        final(l).wf(),
        match enter_check(*old(l), *env, *info, game_id) {
            Err(e) => r == Err::<Response, ContractError>(e) && *final(l) == *old(l),
            Ok(()) => {
                &&& r matches Ok(resp)
                &&& enter_transition(
                    *old(l),
                    *final(l),
                    game_id,
                    info.sender,
                    funds_amount(info.funds@, usei()),
                )
                &&& refund_messages(
                    resp.messages@,
                    info.sender@,
                    refund_spec(
                        funds_amount(info.funds@, usei()) as int,
                        old(l).game(game_id).ticket_price as int,
                        old(l).game(game_id).total_ticket_count - old(l).game(
                            game_id,
                        ).sold_ticket_count,
                    ),
                )
            },
        },
{
    let n_games = l.games.len();
    if game_id < 1 || game_id > n_games as u64 {
        return Err(ContractError::WrongGameId);
    }
    let idx = (game_id - 1) as usize;
    let g = &l.games[idx];
    if g.raffle_status == RAFFLE_ENDED {
        return Err(ContractError::RaffleEnded);
    }
    proof {
        lemma_div_is_ordered(env.block.time_nanos as int, u64::MAX as int, 1_000_000_000);
    }
    let now_ms = env.block.time_nanos / 1_000_000_000 * 1000;
    if g.end_time <= now_ms {
        return Err(ContractError::RaffleTimeOver);
    }
    if g.sold_ticket_count >= g.total_ticket_count {
        return Err(ContractError::RaffleSoldOut);
    }
    let start: u64 = g.sold_ticket_count;
    let total: u64 = g.total_ticket_count;
    let price64: u64 = g.ticket_price;
    let ticket_price: u128 = price64 as u128;
    let sent_funds = deposited_usei(&info.funds);
    if sent_funds < ticket_price {
        return Err(ContractError::IncorrectFunds);
    }
    let purchase_ticket_count: u128 = sent_funds / ticket_price;
    let remaining64: u64 = total - start;
    let remaining: u128 = remaining64 as u128;
    let real_count: u64 = if purchase_ticket_count < remaining {
        purchase_ticket_count as u64
    } else {
        remaining64
    };
    proof {
        assert(real_count as int == enter_granted(old(l).game(game_id), sent_funds));
    }
    let mut t = l.tickets.remove(idx);
    let ghost pre_t = t;
    let mut new_numbers: Vec<u64> = Vec::new();
    let mut i: u64 = 0;
    while i < real_count
        invariant
            i <= real_count,
            start + real_count <= total,
            pre_t.owners@.len() == start,
            t.owners@ == pre_t.owners@ + Seq::new(i as nat, |j: int| info.sender),
            t.wallets == pre_t.wallets,
            new_numbers@ == new_ticket_numbers(start as int, i as int),
        decreases real_count - i,
    {
        t.owners.push(info.sender.clone());
        new_numbers.push(start + 1 + i);
        proof {
            assert(t.owners@ =~= pre_t.owners@ + Seq::new((i + 1) as nat, |j: int| info.sender));
            assert(new_numbers@ =~= new_ticket_numbers(start as int, i + 1));
        }
        i = i + 1;
    }
    let n_entries = t.wallets.len();
    let mut j: usize = 0;
    let mut found: usize = n_entries;
    while j < n_entries
        invariant
            j <= n_entries,
            n_entries == t.wallets@.len(),
            found == n_entries || (found < j && t.wallets@[found as int].wallet@
                == info.sender@),
            found == n_entries ==> forall|k2: int|
                0 <= k2 < j ==> (#[trigger] t.wallets@[k2]).wallet@ != info.sender@,
        decreases n_entries - j,
    {
        if found == n_entries {
            if t.wallets[j].wallet == info.sender {
                found = j;
            }
        }
        j += 1;
    }
    let ghost mid_t = t;
    if found < n_entries {
        let mut e = t.wallets.remove(found);
        e.ticket_numbers.append(&mut new_numbers);
        t.wallets.insert(found, e);
        proof {
            assert(t.wallets@ =~= mid_t.wallets@.update(
                found as int,
                (WalletEntry {
                    wallet: mid_t.wallets@[found as int].wallet,
                    ticket_numbers: t.wallets@[found as int].ticket_numbers,
                }),
            ));
        }
    } else {
        t.wallets.push(WalletEntry { wallet: info.sender.clone(), ticket_numbers: new_numbers });
    }
    proof {
        lemma_enter_wallets_wf(
            pre_t,
            t,
            info.sender,
            start as int,
            real_count as int,
            found as int,
        );
    }
    l.tickets.insert(idx, t);
    let g2 = &l.games[idx];
    let new_game = GameState {
        ticket_price: g2.ticket_price,
        sold_ticket_count: start + real_count,
        total_ticket_count: g2.total_ticket_count,
        raffle_status: g2.raffle_status,
        nft_contract_addr: clone_opt_string(&g2.nft_contract_addr),
        nft_token_id: g2.nft_token_id.clone(),
        owner: g2.owner.clone(),
        collection_wallet: g2.collection_wallet.clone(),
        end_time: g2.end_time,
    };
    l.games.set(idx, new_game);
    proof {
        let pre = *old(l);
        let gi = game_id - 1;
        assert(l.tickets@ =~= pre.tickets@.update(gi as int, t));
        assert(l.games@ =~= pre.games@.update(
            gi as int,
            (GameState {
                sold_ticket_count: (start + real_count) as u64,
                ..pre.games@[gi as int]
            }),
        ));
        assert forall|i2: int| 0 <= i2 < l.games@.len() implies (#[trigger] l.games@[i2]).wf() by {
            if i2 != gi as int {
                assert(l.games@[i2] == pre.games@[i2]);
            }
        }
        assert forall|i2: int|
            0 <= i2 < l.games@.len() implies (#[trigger] l.tickets@[i2]).wf(
            l.games@[i2].sold_ticket_count as int,
        ) by {
            if i2 != gi as int {
                assert(l.tickets@[i2] == pre.tickets@[i2]);
                assert(l.games@[i2].sold_ticket_count == pre.games@[i2].sold_ticket_count);
            }
        }
    }
    let refund_amount: u128 = {
        proof {
            let d = sent_funds as int;
            let p = ticket_price as int;
            let k = real_count as int;
            lemma_fundamental_div_mod(d, p);
            lemma_mod_bound(d, p);
            lemma_mul_inequality(k, d / p, p);
        }
        sent_funds - ticket_price * (real_count as u128)
    };
    let mut messages: Vec<Instruction> = Vec::new();
    if refund_amount > 0 {
        messages.push(
            Instruction::Send {
                to_address: info.sender.clone(),
                amount: refund_amount,
                denom: "usei".to_owned(),
            },
        );
    }
    Ok(Response { messages })
}

/// The derived wallet index stays consistent through one purchase: after
/// appending `k` tickets bought by `sender` to the primary map and the
/// matching numbers to `sender`'s entry (extending the entry at `found`,
/// or appending a fresh one when `found` is past the end), the index is
/// again well-formed.
proof fn lemma_enter_wallets_wf(
    pre_t: TicketLedger,
    post_t: TicketLedger,
    sender: String,
    start: int,
    k: int,
    found: int,
)
    requires
        0 <= k,
        start + k <= u64::MAX,
        pre_t.owners@.len() == start,
        wallets_wf(pre_t.owners_view(), pre_t.wallets@),
        post_t.owners@ == pre_t.owners@ + Seq::new(k as nat, |j: int| sender),
        0 <= found <= pre_t.wallets@.len(),
        found < pre_t.wallets@.len() ==> {
            &&& pre_t.wallets@[found].wallet@ == sender@
            &&& post_t.wallets@.len() == pre_t.wallets@.len()
            &&& forall|j2: int|
                0 <= j2 < pre_t.wallets@.len() && j2 != found ==> #[trigger] post_t.wallets@[j2]
                    == pre_t.wallets@[j2]
            &&& post_t.wallets@[found].wallet == pre_t.wallets@[found].wallet
            &&& post_t.wallets@[found].ticket_numbers@
                == pre_t.wallets@[found].ticket_numbers@ + new_ticket_numbers(start, k)
        },
        found == pre_t.wallets@.len() ==> {
            &&& forall|j2: int|
                0 <= j2 < pre_t.wallets@.len() ==> (#[trigger] pre_t.wallets@[j2]).wallet@
                    != sender@
            &&& post_t.wallets@.len() == pre_t.wallets@.len() + 1
            &&& forall|j2: int|
                0 <= j2 < pre_t.wallets@.len() ==> #[trigger] post_t.wallets@[j2]
                    == pre_t.wallets@[j2]
            &&& post_t.wallets@.last().wallet == sender
            &&& post_t.wallets@.last().ticket_numbers@ == new_ticket_numbers(start, k)
        },
    ensures
        wallets_wf(post_t.owners_view(), post_t.wallets@),
{
    let pre_dv = pre_t.owners_view();
    let post_dv = post_t.owners_view();
    let rep = Seq::new(k as nat, |j: int| sender@);
    assert(post_dv =~= pre_dv + rep) by {
        assert(post_dv.len() == pre_dv.len() + k);
        assert forall|i: int| 0 <= i < post_dv.len() implies post_dv[i] == (pre_dv + rep)[i] by {
            if i < pre_dv.len() {
                assert(post_t.owners@[i] == pre_t.owners@[i]);
            } else {
                assert(post_t.owners@[i] == sender);
            }
        }
    }
    lemma_ticket_numbers_extend(pre_dv, sender@, k as nat);
    let pre_e = pre_t.wallets@;
    let post_e = post_t.wallets@;
    // every entry still lists exactly its tickets
    assert forall|j: int| 0 <= j < post_e.len() implies (#[trigger] post_e[j]).ticket_numbers@
        == ticket_numbers_of(post_dv, post_e[j].wallet@) by {
        if found < pre_e.len() {
            if j == found {
                assert(post_e[j].wallet@ == sender@);
            } else {
                assert(post_e[j] == pre_e[j]);
                assert(pre_e[j].wallet@ != sender@);
                lemma_ticket_numbers_extend_other(pre_dv, sender@, k as nat, pre_e[j].wallet@);
            }
        } else {
            if j == post_e.len() - 1 {
                assert(post_e[j] == post_e.last());
                assert(post_e[j].wallet@ == sender@);
                assert(forall|i: int| 0 <= i < pre_dv.len() ==> pre_dv[i] != sender@) by {
                    assert forall|i: int|
                        0 <= i < pre_dv.len() implies #[trigger] pre_dv[i] != sender@ by {
                        if pre_dv[i] == sender@ {
                            let jj = choose|jj: int|
                                0 <= jj < pre_e.len() && (#[trigger] pre_e[jj]).wallet@
                                    == pre_dv[i];
                            assert(pre_e[jj].wallet@ != sender@);
                        }
                    }
                }
                lemma_ticket_numbers_absent(pre_dv, sender@);
            } else {
                assert(post_e[j] == pre_e[j]);
                assert(pre_e[j].wallet@ != sender@);
                lemma_ticket_numbers_extend_other(pre_dv, sender@, k as nat, pre_e[j].wallet@);
            }
        }
    }
    // wallets still listed at most once
    assert forall|j1: int, j2: int|
        0 <= j1 < post_e.len() && 0 <= j2 < post_e.len() && j1 != j2 implies (
    #[trigger] post_e[j1]).wallet@ != (#[trigger] post_e[j2]).wallet@ by {
        if found < pre_e.len() {
            assert(post_e[j1].wallet@ == pre_e[j1].wallet@);
            assert(post_e[j2].wallet@ == pre_e[j2].wallet@);
        } else {
            if j1 < pre_e.len() && j2 < pre_e.len() {
                assert(post_e[j1] == pre_e[j1]);
                assert(post_e[j2] == pre_e[j2]);
            } else if j1 < pre_e.len() {
                assert(post_e[j2].wallet@ == sender@);
                assert(post_e[j1].wallet@ != sender@);
            } else {
                assert(post_e[j1].wallet@ == sender@);
                assert(post_e[j2].wallet@ != sender@);
            }
        }
    }
    // every buyer still has an entry
    assert forall|i: int| 0 <= i < post_dv.len() implies exists|j: int|
        0 <= j < post_e.len() && (#[trigger] post_e[j]).wallet@ == #[trigger] post_dv[i] by {
        if i < pre_dv.len() {
            let jj = choose|jj: int|
                0 <= jj < pre_e.len() && (#[trigger] pre_e[jj]).wallet@ == pre_dv[i];
            if found < pre_e.len() {
                if jj == found {
                    assert(post_e[found].wallet@ == pre_e[found].wallet@);
                    assert(0 <= found < post_e.len() && post_e[found].wallet@ == post_dv[i]);
                } else {
                    assert(post_e[jj].wallet@ == post_dv[i]);
                }
            } else {
                assert(post_e[jj].wallet@ == post_dv[i]);
            }
        } else {
            assert(post_dv[i] == sender@);
            if found < pre_e.len() {
                assert(post_e[found].wallet@ == sender@);
            } else {
                assert(post_e.last().wallet@ == sender@);
                assert(post_e[post_e.len() - 1].wallet@ == sender@);
            }
        }
    }
}

/// Law: `Ended` is terminal. Against a game whose stored status is
/// ended, both a purchase and a settlement are decided as `RaffleEnded`
/// before anything is touched — and by the contracts of
/// [`try_enter_raffle`] and
/// [`try_select_winner_and_transfer_nft_to_winner`], a call decided by
/// an error leaves the ledger exactly as it was.
pub proof fn lemma_ended_is_terminal(l: Ledger, env: Env, info: MessageInfo, game_id: u64)
    requires
        l.has_game(game_id),
        l.game(game_id).raffle_status == RAFFLE_ENDED,
    ensures
        enter_check(l, env, info, game_id) == Err::<(), ContractError>(
            ContractError::RaffleEnded,
        ),
        settle_check(l, env, game_id) == Err::<(), ContractError>(ContractError::RaffleEnded),
{
}

/// Dispatch one mutating request to the operation it names.
///
/// `prize_transferable` is the custody service's answer to an ownership
/// query for the prize named in a `StartRaffle` request, made by the
/// host on behalf of this call; every other request ignores it.
pub fn execute(
    l: &mut Ledger,
    env: &Env,
    info: &MessageInfo,
    msg: ExecuteMsg,
    prize_transferable: bool,
) -> (r: Result<Response, ContractError>)
    requires
        old(l).wf(),
        msg matches ExecuteMsg::StartRaffle { .. } ==> old(l).global.count < u64::MAX,
        msg matches ExecuteMsg::EnterRaffle { game_id } ==> (enter_check(
            *old(l),
            *env,
            *info,
            game_id,
        ) is Ok ==> old(l).game(game_id).ticket_price >= 1),
        msg matches ExecuteMsg::SelectWinnerAndTransferNFTtoWinner { game_id }
            ==> settle_requires(*old(l), *env, game_id),
    ensures
        final(l).wf(),
        msg matches ExecuteMsg::ReceiveNft { .. } ==> (*final(l) == *old(l) && (r matches Ok(resp)
            && resp.messages@.len() == 0)),
        (msg matches ExecuteMsg::StartRaffle {
            ticket_price,
            total_ticket_count,
            nft_contract_addr,
            nft_token_id,
            collection_wallet,
            end_time,
        } ==> match start_check(*old(l), *info, prize_transferable) {
            Err(e) => r == Err::<Response, ContractError>(e) && *final(l) == *old(l),
            Ok(()) => (r matches Ok(resp) && resp.messages@.len() == 0 && start_transition(
                *old(l),
                *final(l),
                *info,
                ticket_price,
                total_ticket_count,
                nft_contract_addr,
                nft_token_id,
                collection_wallet,
                end_time,
            )),
        }),
        (msg matches ExecuteMsg::EnterRaffle { game_id } ==> match enter_check(
            *old(l),
            *env,
            *info,
            game_id,
        ) {
            Err(e) => r == Err::<Response, ContractError>(e) && *final(l) == *old(l),
            Ok(()) => (r matches Ok(resp) && enter_transition(
                *old(l),
                *final(l),
                game_id,
                info.sender,
                funds_amount(info.funds@, usei()),
            ) && refund_messages(
                resp.messages@,
                info.sender@,
                refund_spec(
                    funds_amount(info.funds@, usei()) as int,
                    old(l).game(game_id).ticket_price as int,
                    old(l).game(game_id).total_ticket_count - old(l).game(
                        game_id,
                    ).sold_ticket_count,
                ),
            )),
        }),
        (msg matches ExecuteMsg::TransferTokensToCollectionWallet {
            amount,
            denom,
            collection_wallet_address,
        } ==> (*final(l) == *old(l) && match sweep_check(*old(l), *info) {
            Err(e) => r == Err::<Response, ContractError>(e),
            Ok(()) => r matches Ok(resp) && resp.messages@ =~= seq![
                (Instruction::Send { to_address: collection_wallet_address, amount, denom }),
            ],
        })),
        (msg matches ExecuteMsg::SelectWinnerAndTransferNFTtoWinner { game_id } ==> match settle_check(
            *old(l),
            *env,
            game_id,
        ) {
            Err(e) => r == Err::<Response, ContractError>(e) && *final(l) == *old(l),
            Ok(()) => {
                &&& r matches Ok(resp)
                &&& settle_transition(*old(l), *final(l), game_id)
                &&& resp.messages@.len() == 1
                &&& prize_message(
                    resp.messages@[0],
                    opt_view(old(l).game(game_id).nft_contract_addr),
                    settle_recipient(*old(l), *env, game_id),
                    old(l).game(game_id).nft_token_id@,
                )
            },
        }),
{
    match msg {
        ExecuteMsg::ReceiveNft { sender, token_id, msg: data } => {
            try_receive_nft(sender, token_id, data)
        },
        ExecuteMsg::StartRaffle {
            ticket_price,
            total_ticket_count,
            nft_contract_addr,
            nft_token_id,
            collection_wallet,
            end_time,
        } => {
            match try_start_raffle(
                l,
                info,
                ticket_price,
                total_ticket_count,
                nft_contract_addr,
                nft_token_id,
                collection_wallet,
                end_time,
                prize_transferable,
            ) {
                Ok(_game_id) => Ok(Response::empty()),
                Err(e) => Err(e),
            }
        },
        ExecuteMsg::EnterRaffle { game_id } => try_enter_raffle(l, env, info, game_id),
        ExecuteMsg::TransferTokensToCollectionWallet {
            amount,
            denom,
            collection_wallet_address,
        } => {
            try_transfer_tokens_to_collection_wallet(
                l,
                info,
                amount,
                denom,
                collection_wallet_address,
            )
        },
        ExecuteMsg::SelectWinnerAndTransferNFTtoWinner { game_id } => {
            try_select_winner_and_transfer_nft_to_winner(l, env, game_id)
        },
    }
}

/// Law: the refund arithmetic of a purchase. With a positive price, a
/// deposit covering at least one ticket and capacity remaining, at least
/// one ticket is granted and the refund is never negative; when capacity
/// does not bind, the refund is the deposit's remainder below one ticket
/// price; when capacity binds, the refund is the deposit minus the price
/// of every remaining ticket, and may legitimately reach or exceed one
/// ticket price.
pub proof fn lemma_refund_bounds(deposit: int, price: int, remaining: int)
    requires
        price >= 1,
        deposit >= price,
        remaining >= 1,
    ensures
        granted_spec(deposit, price, remaining) >= 1,
        refund_spec(deposit, price, remaining) >= 0,
        deposit / price <= remaining ==> refund_spec(deposit, price, remaining) == deposit % price
            && refund_spec(deposit, price, remaining) < price,
        deposit / price > remaining ==> refund_spec(deposit, price, remaining) == deposit - price
            * remaining,
{
    lemma_fundamental_div_mod(deposit, price);
    lemma_mod_bound(deposit, price);
    lemma_div_is_ordered(price, deposit, price);
    assert(price / price == 1) by {
        lemma_fundamental_div_mod(price, price);
        lemma_mod_bound(price, price);
    }
    let granted = granted_spec(deposit, price, remaining);
    assert(deposit == price * (deposit / price) + deposit % price);
    if deposit / price <= remaining {
        assert(granted == deposit / price);
        assert(refund_spec(deposit, price, remaining) == deposit - price * (deposit / price));
        assert(refund_spec(deposit, price, remaining) == deposit % price);
    } else {
        assert(granted == remaining);
        lemma_mul_inequality(remaining, deposit / price, price);
        assert(remaining * price <= (deposit / price) * price);
        lemma_mul_is_commutative(remaining, price);
        lemma_mul_is_commutative(deposit / price, price);
        assert(price * remaining <= price * (deposit / price));
        assert(refund_spec(deposit, price, remaining) == deposit - price * remaining);
        assert(refund_spec(deposit, price, remaining) >= deposit % price);
    }
}

} // verus!

