//! The result and error taxonomy shared by every mutating operation of
//! the engine. Every rule violation is reported as a value; the engine
//! never panics on well-typed input.

use vstd::prelude::*;

use crate::transaction::LedgerBookEntry;

verus! {

/// Why a transaction was rejected. Each variant is returned by exactly
/// the rule stated in the contracts of the account operations.
#[derive(Debug, Eq, PartialEq)]
pub enum ExecutionError {
    /// A withdrawal exceeds the available funds; no state change.
    InsufficientBalance,
    /// Tag/operation mismatch, e.g. disputing a withdrawal.
    InvalidTransactionType,
    /// The referenced id was not found in the pool the operation
    /// queries (active for dispute, disputed for resolve/chargeback).
    InvalidTransaction,
    /// The id collides with a previously recorded balance-flow
    /// transaction.
    TransactionExists,
    /// Reserved for callers that want to tag entries under an open
    /// dispute; the engine itself reports such lookups as
    /// `InvalidTransaction`.
    TransactionDisputed,
    /// A balance-flow transaction was attempted on a frozen account.
    AccountLocked,
}

/// What a successful operation reports back. `Accepted` carries no
/// data: the administrative operations report plain success, while the
/// balance-flow operations report the new available balance.
#[derive(Debug, Eq, PartialEq)]
pub enum ExecutionResult {
    Accepted,
    BookEntry(LedgerBookEntry),
    NewAvailableBalance(i64),
}

} // verus!
