//! An in-memory ledger: users, accounts, and an append-only transaction log.
//!
//! All state lives in a single [`bank::Bank`] value. Operations assign
//! strictly increasing ids, mutate balances, and record every successful
//! balance change as a [`transaction::Transaction`]. Amounts are plain
//! `i64` values (e.g. a currency's minor units); callers that present
//! amounts in another form convert at the boundary.

pub mod bank;
pub mod transaction;
