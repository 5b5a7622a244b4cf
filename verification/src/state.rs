//! The ledger model: registry, per-game records, and ticket ownership.
//!
//! The host runtime persists this state between calls and serialises the
//! calls themselves, so every transition function of this library works on
//! one in-memory value of [`Ledger`] and either commits it whole or leaves
//! it untouched.

use vstd::prelude::*;

verus! {

/// `raffle_status` value of a game that is still selling tickets.
pub const RAFFLE_ACTIVE: u8 = 1;

/// `raffle_status` value of a game that reached its terminal state.
pub const RAFFLE_ENDED: u8 = 0;

/// Derived lifecycle phase of one game: `TimeOver` is a soft condition
/// (the sale window passed while the status field still says active),
/// never stored in the ledger.
#[derive(Clone, Copy, PartialEq, Eq, Structural, Debug)]
pub enum GameStatus {
    Active,
    Ended,
    TimeOver,
}

/// The registry-wide record: how many games were opened, and which
/// identity may open games and sweep funds.
#[derive(Debug, Clone, PartialEq)]
pub struct GlobalState {
    /// Number of games opened so far; the next game gets id `count + 1`.
    pub count: u64,
    /// The operator of the registry.
    pub owner: String,
}

/// Immutable configuration and mutable status of one raffle.
#[derive(Debug, Clone, PartialEq)]
pub struct GameState {
    /// Price of one ticket, in the settlement denomination.
    pub ticket_price: u64,
    /// How many tickets were sold; grows during purchases.
    pub sold_ticket_count: u64,
    /// Capacity of the ticket pool.
    pub total_ticket_count: u64,
    /// `RAFFLE_ACTIVE` while selling, `RAFFLE_ENDED` after settlement.
    pub raffle_status: u8,
    /// The custody contract holding the prize, when known.
    pub nft_contract_addr: Option<String>,
    /// The prize token within the custody contract.
    pub nft_token_id: String,
    /// The identity that opened this game.
    pub owner: String,
    /// Fallback prize recipient and destination of swept funds.
    pub collection_wallet: String,
    /// End of the sale window, in milliseconds since the epoch.
    pub end_time: u64,
}

/// One wallet's ticket numbers within one game: a derived, append-only
/// index over the primary ticket map.
#[derive(Debug, Clone, PartialEq)]
pub struct WalletEntry {
    /// The buying identity.
    pub wallet: String,
    /// One-based ticket numbers that wallet owns, in purchase order.
    pub ticket_numbers: Vec<u64>,
}

/// Ticket ownership for one game.
#[derive(Debug, Clone, PartialEq)]
pub struct TicketLedger {
    /// Primary map: zero-based ticket index to the buying identity;
    /// indices are assigned contiguously and exactly once.
    pub owners: Vec<String>,
    /// Derived index: per wallet, the one-based ticket numbers it owns.
    pub wallets: Vec<WalletEntry>,
}

/// The whole shared ledger: registry plus, per game id, the game record
/// and its ticket ownership. Game id `g` lives at index `g - 1`.
#[derive(Debug, Clone, PartialEq)]
pub struct Ledger {
    /// The registry singleton.
    pub global: GlobalState,
    /// One record per opened game; never deleted.
    pub games: Vec<GameState>,
    /// Ticket ownership of each game, parallel to `games`.
    pub tickets: Vec<TicketLedger>,
}

/// The one-based ticket numbers that wallet `w` owns, derived from the
/// primary map `owners` (ticket number = index + 1), in purchase order.
pub open spec fn ticket_numbers_of(owners: Seq<Seq<char>>, w: Seq<char>) -> Seq<u64>
    decreases owners.len(),
{
    if owners.len() == 0 {
        Seq::empty()
    } else {
        ticket_numbers_of(owners.drop_last(), w) + if owners.last() == w {
            seq![owners.len() as u64]
        } else {
            Seq::empty()
        }
    }
}

/// The derived wallet index agrees with the primary map: wallets are
/// listed at most once, each entry holds exactly the numbers the primary
/// map gives it, and every buyer has an entry.
pub open spec fn wallets_wf(owners: Seq<Seq<char>>, entries: Seq<WalletEntry>) -> bool {
    &&& forall|j1: int, j2: int|
        0 <= j1 < entries.len() && 0 <= j2 < entries.len() && j1 != j2
            ==> #[trigger] entries[j1].wallet@ != #[trigger] entries[j2].wallet@
    &&& forall|j: int|
        0 <= j < entries.len()
            ==> #[trigger] entries[j].ticket_numbers@ == ticket_numbers_of(
                owners,
                entries[j].wallet@,
            )
    &&& forall|i: int|
        0 <= i < owners.len()
            ==> exists|j: int|
                0 <= j < entries.len() && #[trigger] entries[j].wallet@ == #[trigger] owners[i]
}

impl GameState {
    /// The numeric invariants of one game record.
    pub open spec fn wf(self) -> bool {
        &&& self.raffle_status == RAFFLE_ACTIVE || self.raffle_status == RAFFLE_ENDED
        &&& self.sold_ticket_count <= self.total_ticket_count
    }
}

impl TicketLedger {
    /// The wallet views of the primary map.
    pub open spec fn owners_view(self) -> Seq<Seq<char>> {
        self.owners.deep_view()
    }

    /// Well-formedness against the sold count of the owning game.
    pub open spec fn wf(self, sold_ticket_count: int) -> bool {
        &&& self.owners@.len() == sold_ticket_count
        &&& wallets_wf(self.owners_view(), self.wallets@)
    }
}

impl Ledger {
    /// The invariant every transition of this library preserves.
    pub open spec fn wf(self) -> bool {
        &&& self.global.count == self.games@.len()
        &&& self.tickets@.len() == self.games@.len()
        &&& forall|i: int| 0 <= i < self.games@.len() ==> (#[trigger] self.games@[i]).wf()
        &&& forall|i: int|
            0 <= i < self.games@.len()
                ==> (#[trigger] self.tickets@[i]).wf(self.games@[i].sold_ticket_count as int)
    }

    /// Whether a game was opened under this id.
    pub open spec fn has_game(self, game_id: u64) -> bool {
        1 <= game_id <= self.games@.len()
    }

    /// The record of the game under this id.
    pub open spec fn game(self, game_id: u64) -> GameState {
        self.games@[game_id - 1]
    }

    /// The ticket ownership of the game under this id.
    pub open spec fn game_tickets(self, game_id: u64) -> TicketLedger {
        self.tickets@[game_id - 1]
    }

    /// A fresh ledger with no games, operated by `owner`.
    pub fn new(owner: String) -> (r: Ledger)
        ensures
            r.wf(),
            r.global.count == 0,
            r.global.owner@ == owner@,
            r.games@.len() == 0,
    {
        Ledger { global: GlobalState { count: 0, owner }, games: Vec::new(), tickets: Vec::new() }
    }
}

/// Appending one buyer to the primary map appends its ticket number to
/// that buyer's derived list and leaves every other wallet's list as it
/// was.
pub proof fn lemma_ticket_numbers_push(owners: Seq<Seq<char>>, x: Seq<char>, w: Seq<char>)
    requires
        owners.len() + 1 <= u64::MAX,
    ensures
        ticket_numbers_of(owners.push(x), w) == ticket_numbers_of(owners, w) + if x == w {
            seq![(owners.len() + 1) as u64]
        } else {
            Seq::<u64>::empty()
        },
{
    let pushed = owners.push(x);
    assert(pushed.drop_last() =~= owners);
    assert(pushed.last() == x);
}

/// Appending `k` tickets bought by `x` to the primary map appends the
/// numbers `len + 1 .. len + k` to `x`'s derived list and leaves every
/// other wallet's list as it was.
pub proof fn lemma_ticket_numbers_extend(owners: Seq<Seq<char>>, x: Seq<char>, k: nat)
    requires
        owners.len() + k <= u64::MAX,
    ensures
        ticket_numbers_of(owners + Seq::new(k, |j: int| x), x) == ticket_numbers_of(owners, x)
            + Seq::new(k, |j: int| (owners.len() + 1 + j) as u64),
    decreases k,
{
    if k == 0 {
        assert(owners + Seq::new(0, |j: int| x) =~= owners);
        assert(ticket_numbers_of(owners, x) + Seq::new(0, |j: int| (owners.len() + 1 + j) as u64)
            =~= ticket_numbers_of(owners, x));
    } else {
        let prev = owners + Seq::new((k - 1) as nat, |j: int| x);
        let whole = owners + Seq::new(k, |j: int| x);
        assert(whole =~= prev.push(x));
        lemma_ticket_numbers_extend(owners, x, (k - 1) as nat);
        lemma_ticket_numbers_push(prev, x, x);
        assert(ticket_numbers_of(whole, x) == ticket_numbers_of(prev, x) + seq![
            (prev.len() + 1) as u64,
        ]);
        assert(ticket_numbers_of(owners, x) + Seq::new(
            (k - 1) as nat,
            |j: int| (owners.len() + 1 + j) as u64,
        ) + seq![(prev.len() + 1) as u64] =~= ticket_numbers_of(owners, x) + Seq::new(
            k,
            |j: int| (owners.len() + 1 + j) as u64,
        ));
    }
}

/// Appending tickets bought by `x` to the primary map leaves the derived
/// list of any other wallet `w` as it was.
pub proof fn lemma_ticket_numbers_extend_other(
    owners: Seq<Seq<char>>,
    x: Seq<char>,
    k: nat,
    w: Seq<char>,
)
    requires
        owners.len() + k <= u64::MAX,
        w != x,
    ensures
        ticket_numbers_of(owners + Seq::new(k, |j: int| x), w) == ticket_numbers_of(owners, w),
    decreases k,
{
    if k > 0 {
        let prev = owners + Seq::new((k - 1) as nat, |j: int| x);
        let whole = owners + Seq::new(k, |j: int| x);
        assert(whole =~= prev.push(x));
        lemma_ticket_numbers_extend_other(owners, x, (k - 1) as nat, w);
        lemma_ticket_numbers_push(prev, x, w);
        assert(ticket_numbers_of(whole, w) =~= ticket_numbers_of(prev, w));
    } else {
        assert(owners + Seq::new(0, |j: int| x) =~= owners);
    }
}

/// A wallet that never bought a ticket has no ticket numbers.
pub proof fn lemma_ticket_numbers_absent(owners: Seq<Seq<char>>, w: Seq<char>)
    requires
        forall|i: int| 0 <= i < owners.len() ==> owners[i] != w,
    ensures
        ticket_numbers_of(owners, w) == Seq::<u64>::empty(),
    decreases owners.len(),
{
    if owners.len() > 0 {
        lemma_ticket_numbers_absent(owners.drop_last(), w);
        assert(ticket_numbers_of(owners, w) =~= Seq::<u64>::empty());
    }
}

/// A wallet's derived list holds exactly the numbers of the tickets the
/// primary map assigns to it: `n` is listed if and only if ticket index
/// `n - 1` was sold to that wallet.
pub proof fn lemma_ticket_numbers_member(owners: Seq<Seq<char>>, w: Seq<char>, n: u64)
    requires
        owners.len() <= u64::MAX,
    ensures
        ticket_numbers_of(owners, w).contains(n) <==> (1 <= n <= owners.len() && owners[n - 1]
            == w),
    decreases owners.len(),
{
    if owners.len() > 0 {
        lemma_ticket_numbers_member(owners.drop_last(), w, n);
        let prefix = ticket_numbers_of(owners.drop_last(), w);
        let whole = ticket_numbers_of(owners, w);
        if owners.last() == w {
            assert(whole == prefix + seq![owners.len() as u64]);
            assert(whole.contains(n) <==> (prefix.contains(n) || n == owners.len() as u64))
                by {
                if whole.contains(n) {
                    let k = choose|k: int| 0 <= k < whole.len() && whole[k] == n;
                    if k < prefix.len() {
                        assert(prefix[k] == n);
                    }
                }
                if prefix.contains(n) {
                    let k = choose|k: int| 0 <= k < prefix.len() && prefix[k] == n;
                    assert(whole[k] == n);
                }
                if n == owners.len() as u64 {
                    assert(whole[whole.len() - 1] == n);
                }
            }
        } else {
            assert(whole == prefix + Seq::<u64>::empty());
            assert(whole =~= prefix);
        }
    }
}

/// Law: `sold_ticket_count` never exceeds `total_ticket_count` in a
/// well-formed ledger, for every game.
pub proof fn lemma_sold_count_bounded(l: Ledger, game_id: u64)
    requires
        l.wf(),
        l.has_game(game_id),
    ensures
        l.game(game_id).sold_ticket_count <= l.game(game_id).total_ticket_count,
{
}

/// Law: in a well-formed ledger each sold ticket number belongs to
/// exactly one wallet: the buyer recorded in the primary map holds it,
/// and no two wallet entries list it.
pub proof fn lemma_ticket_owned_once(l: Ledger, game_id: u64, n: u64)
    requires
        l.wf(),
        l.has_game(game_id),
        1 <= n <= l.game(game_id).sold_ticket_count,
    ensures
        exists|j: int|
            {
                &&& 0 <= j < l.game_tickets(game_id).wallets@.len()
                &&& (#[trigger] l.game_tickets(game_id).wallets@[j]).ticket_numbers@.contains(n)
                &&& l.game_tickets(game_id).wallets@[j].wallet@ == l.game_tickets(
                    game_id,
                ).owners_view()[n - 1]
            },
        forall|j1: int, j2: int|
            {
                (0 <= j1 < l.game_tickets(game_id).wallets@.len() && 0 <= j2 < l.game_tickets(
                    game_id,
                ).wallets@.len() && (#[trigger] l.game_tickets(
                    game_id,
                ).wallets@[j1]).ticket_numbers@.contains(n) && (#[trigger] l.game_tickets(
                    game_id,
                ).wallets@[j2]).ticket_numbers@.contains(n)) ==> j1 == j2
            },
{
    let t = l.game_tickets(game_id);
    let owners = t.owners_view();
    let entries = t.wallets@;
    assert(t.wf(l.game(game_id).sold_ticket_count as int));
    assert(owners.len() == l.game(game_id).sold_ticket_count);
    let i = n - 1;
    assert(0 <= i < owners.len());
    let j = choose|j: int| 0 <= j < entries.len() && #[trigger] entries[j].wallet@ == owners[i];
    lemma_ticket_numbers_member(owners, entries[j].wallet@, n);
    assert(entries[j].ticket_numbers@.contains(n));
    assert forall|j1: int, j2: int|
        (0 <= j1 < entries.len() && 0 <= j2 < entries.len()
            && (#[trigger] entries[j1]).ticket_numbers@.contains(n)
            && (#[trigger] entries[j2]).ticket_numbers@.contains(n)) implies j1 == j2 by {
        lemma_ticket_numbers_member(owners, entries[j1].wallet@, n);
        lemma_ticket_numbers_member(owners, entries[j2].wallet@, n);
        assert(entries[j1].wallet@ == owners[i]);
        assert(entries[j2].wallet@ == owners[i]);
    }
}

} // verus!
