//! Winner selection: a pseudo-random ticket index derived from chain
//! metadata and the game's counters.
//!
//! The derivation is a pure function of values every observer of the chain
//! can see (and, in some consensus designs, influence) before the settling
//! transaction runs, so it is deterministic but not cryptographically
//! unpredictable. It is reproduced here exactly as the contract behaves on
//! chain; a production-grade replacement would need an external randomness
//! beacon.

use vstd::arithmetic::div_mod::lemma_mod_bound;
use vstd::prelude::*;

verus! {

/// The factor the sold count is multiplied with inside the seed
/// derivation: a mix of block time, block height and the ticket pool size.
pub open spec fn seed_factor_spec(total: int, nanos: int, height: int) -> int {
    nanos / 1024 / total + ((height % total) * 256) % total + 1
}

/// The assist term of the seed.
pub open spec fn seed_assist_spec(total: int, sold: int, nanos: int, height: int) -> int {
    ((sold % total) * seed_factor_spec(total, nanos, height)) % total
}

/// The seed the winning index is drawn from.
pub open spec fn seed_spec(total: int, sold: int, nanos: int, height: int) -> int {
    (nanos % total + height + seed_assist_spec(total, sold, nanos, height)) % total
}

/// The zero-based index of the winning ticket.
pub open spec fn winner_index_spec(total: int, sold: int, nanos: int, height: int) -> int {
    seed_spec(total, sold, nanos, height) % total
}

/// Draw the winning ticket index of a game from the chain metadata of the
/// settling block.
///
/// The preconditions are exactly the inputs on which the intermediate
/// 64-bit arithmetic stays in range; on any other input the computation
/// would abort the whole transaction instead of returning.
pub fn select_winner_index(
    total_ticket_count: u64,
    sold_ticket_count: u64,
    block_time_nanos: u64,
    block_height: u64,
) -> (r: u64)
    requires
        total_ticket_count >= 1,
        (block_height as int % total_ticket_count as int) * 256 <= u64::MAX,
        seed_factor_spec(
            total_ticket_count as int,
            block_time_nanos as int,
            block_height as int,
        ) <= u64::MAX,
        (sold_ticket_count as int % total_ticket_count as int) * seed_factor_spec(
            total_ticket_count as int,
            block_time_nanos as int,
            block_height as int,
        ) <= u64::MAX,
        block_time_nanos as int % total_ticket_count as int + block_height
            + seed_assist_spec(
            total_ticket_count as int,
            sold_ticket_count as int,
            block_time_nanos as int,
            block_height as int,
        ) <= u64::MAX,
    ensures
        r == winner_index_spec(
            total_ticket_count as int,
            sold_ticket_count as int,
            block_time_nanos as int,
            block_height as int,
        ),
        r < total_ticket_count,
{
    let mod_number = total_ticket_count;
    let sold_count = sold_ticket_count;
    let seed_assist = sold_count % mod_number * (block_time_nanos / 1024 / mod_number
        + block_height % mod_number * 256 % mod_number + 1) % mod_number;
    let seed = (block_time_nanos % mod_number + block_height + seed_assist) % mod_number;
    let winner_index = seed % mod_number;
    winner_index
}

/// Law: the winning index always lies in `[0, total_ticket_count)`.
pub proof fn lemma_winner_index_in_range(total: int, sold: int, nanos: int, height: int)
    requires
        total >= 1,
    ensures
        0 <= winner_index_spec(total, sold, nanos, height) < total,
{
    lemma_mod_bound(seed_spec(total, sold, nanos, height), total);
}

/// Law: the draw is deterministic. Any two draws made from the same pool
/// size, sold count, block time and block height name the same index.
pub proof fn lemma_winner_index_deterministic(
    total: int,
    sold: int,
    nanos: int,
    height: int,
    r1: int,
    r2: int,
)
    requires
        r1 == winner_index_spec(total, sold, nanos, height),
        r2 == winner_index_spec(total, sold, nanos, height),
    ensures
        r1 == r2,
{
}

} // verus!
