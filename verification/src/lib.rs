//! A custodial deposit ledger for three asset kinds: native coins, fungible
//! tokens, and non-fungible tokens.
//!
//! The engine in [`contract`] accepts deposits into the keyed records of a
//! [`state::Store`], releases assets back under checked conditions (recorded
//! balance, elapsed time-lock, on-chain custody), and emits outbound transfer
//! instructions for the host to execute. All balance arithmetic is checked;
//! a failed operation leaves the store exactly as it was.

pub mod contract;
pub mod error;
pub mod laws;
pub mod msg;
pub mod state;
pub mod strcmp;
