//! The transaction core of a wagering platform.
//!
//! Users hold an encrypted monetary balance, place bets against published
//! odds on scheduled events, and are subject to responsible-gambling
//! limits and fraud surveillance. The heart of the crate is the
//! bet-placement saga: one atomic unit of work that validates the event,
//! the stake, the sealed balance, the spend limits and the quoted odds,
//! then debits the wallet, appends the ledger and audit rows, and hands
//! the caller an advisory fraud scan to run after commit. Around it stand
//! the balance cipher, the limit evaluator, the fraud detector and the
//! per-subject token-bucket rate limiter.

pub mod amount;
pub mod betting;
pub mod crypto;
pub mod errors;
pub mod laws;
pub mod models;
pub mod rates;
pub mod sports;
pub mod store;
pub mod text;
pub mod validation;
