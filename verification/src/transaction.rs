//! The ledger's transaction log entries.

use vstd::prelude::*;

verus! {

/// The kind of balance-affecting event a log entry records. A transfer is
/// logged on the source account and carries the destination account's id.
#[derive(Clone, Copy, Debug, PartialEq, Eq, Structural)]
pub enum TransactionType {
    Deposit,
    Withdrawal,
    Transfer { to_account_id: u32 },
}

/// An immutable, append-only log entry recording one balance-affecting
/// event. Entries are never modified or deleted once appended.
#[derive(Clone, Copy, Debug, PartialEq, Eq, Structural)]
pub struct Transaction {
    pub id: u32,
    pub account_id: u32,
    pub transaction_type: TransactionType,
    pub amount: i64,
}

} // verus!
