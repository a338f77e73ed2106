//! Two on-ledger financial state machines, an ascending-price auction for a
//! unique asset and a constant-product liquidity pool, with the address
//! derivation that gives each record its custody authority.
//!
//! Every transition is a function from the persisted record and the
//! instruction's inputs to the next record and the transfers it calls for;
//! the caller performs the transfers and persists the record.

pub mod address;
pub mod auction;
pub mod auction_laws;
pub mod codec;
pub mod math;
pub mod pool;
pub mod pool_laws;
