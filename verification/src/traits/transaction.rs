//! Classifying tags and reading the payload of a recorded entry.

use vstd::prelude::*;

use crate::execution::ExecutionError;

verus! {

/// Classification of a transaction kind: balance-flow or not.
pub trait TagConstraints {
    /// Whether this value carries a deposit.
    spec fn tag_is_deposit(&self) -> bool;

    /// Whether this value carries a withdrawal.
    spec fn tag_is_withdrawal(&self) -> bool;

    fn is_deposit(&self) -> (r: bool)
        ensures
            r == self.tag_is_deposit(),
    ;

    fn is_withdrawal(&self) -> (r: bool)
        ensures
            r == self.tag_is_withdrawal(),
    ;
}

/// Reading the payload of a recorded book entry; mismatched reads
/// fail with `InvalidTransactionType`.
pub trait BookEntryExt: TagConstraints {
    /// The deposit amount this value carries, where it does.
    spec fn entry_deposit_amount(&self) -> int;

    /// The withdrawal amount this value carries, where it does.
    spec fn entry_withdrawal_amount(&self) -> int;

    fn deposit_amount(&self) -> (r: Result<i64, ExecutionError>)
        ensures
            match r {
                Ok(amount) => self.tag_is_deposit() && amount as int
                    == self.entry_deposit_amount(),
                Err(e) => !self.tag_is_deposit() && e == ExecutionError::InvalidTransactionType,
            },
    ;

    fn withdrawal_amount(&self) -> (r: Result<i64, ExecutionError>)
        ensures
            match r {
                Ok(amount) => self.tag_is_withdrawal() && amount as int
                    == self.entry_withdrawal_amount(),
                Err(e) => !self.tag_is_withdrawal() && e
                    == ExecutionError::InvalidTransactionType,
            },
    ;
}

} // verus!
