//! A ticketed raffle whose prize is a non-fungible asset.
//!
//! An operator opens a game against a specific prize, participants buy
//! numbered tickets with fungible value, and at settlement a pseudo-random
//! draw names a ticket owner as winner who receives the prize. All value and
//! ownership transitions are recorded in an append-style ledger, modelled
//! here as plain data: the host runtime that persists the ledger between
//! calls, the custody service that moves the prize, and the value-transfer
//! service that pays refunds are external collaborators, reached only
//! through the instructions this library emits.

pub mod contract;
pub mod digest;
pub mod error;
pub mod msg;
pub mod state;
pub mod winner;
