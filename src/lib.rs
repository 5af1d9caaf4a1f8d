//! Core decision logic of a committee-based proof-of-stake consensus node:
//! protocol constants and timeouts, stake-weighted committee sortition, vote
//! aggregation and attestation checks, routing of consensus messages across
//! rounds, stateless checks of candidate blocks, the chain synchronisation
//! state machine, and the lookup of the license circuit's verifier data.
//!
//! Everything that touches the outside world (network, storage, clocks, block
//! execution) is left to the caller: the functions here take the observed
//! facts as plain values and return what to do next.

pub mod config;
pub mod types;
pub mod cache;
pub mod fsm;
pub mod proposal;
pub mod consensus;
pub mod votes;
pub mod license;
pub mod committee;
