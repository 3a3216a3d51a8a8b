//! A ledger of client accounts driven by a stream of deposits, withdrawals,
//! disputes, resolves and chargebacks, with fixed-point amounts and checked
//! arithmetic.

pub mod amount;
pub mod account;
pub mod transaction;
pub mod hmap;
pub mod engine;
pub mod laws;
pub mod codec;
pub mod pipeline;
pub mod text;
