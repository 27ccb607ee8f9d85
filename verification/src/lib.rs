//! Core of a client-side transaction-construction kit for the CKB chain.
//!
//! Cells, scripts and transactions are modelled as plain values
//! ([`types`]), with UDT amounts encoded little-endian at the head of a
//! cell's data ([`codec`]).  Abstract providers ([`traits`]) feed the
//! base-transaction builders ([`tx_builder`]); the unlockers ([`unlock`])
//! decide from the pure on-chain rules whether a script group is already
//! unlocked and hand the rest to a signer.  Script hashing and witness
//! parsing are done by the chain's own type library behind a small
//! trusted boundary ([`interop`]).

pub mod codec;
pub mod interop;
pub mod sizing;
pub mod traits;
pub mod tx_builder;
pub mod types;
pub mod unlock;

use vstd::prelude::*;

verus! {

/// Number of shannons one byte of on-chain storage costs.
pub const SHANNONS_PER_BYTE: u64 = 100_000_000;

} // verus!
