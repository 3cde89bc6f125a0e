//! Escrowed events on a ledger: hackathons, bounties, grants and crowdfunding
//! campaigns whose budget is held by the contract until winners claim it or the
//! event is cancelled and refunded.
//!
//! An operation works on an [`env::Env`]: what one invocation sees of the ledger,
//! together with what it writes, whose authorization it demands and what it asks
//! of the token, the event log and the profile contract. Every operation states in
//! full which error it returns on which input and what the environment looks like
//! afterwards. [`laws`] holds what follows for several operations together.
pub mod amounts;
pub mod env;
pub mod errors;
pub mod escrow;
pub mod event_ops;
pub mod host;
pub mod idempotency;
pub mod laws;
pub mod storage;
pub mod types;
