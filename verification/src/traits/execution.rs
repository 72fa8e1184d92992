//! Applying one transaction: implemented by the account for its own
//! state, and by the ledger for the addressed account.

use vstd::prelude::*;

use crate::execution::{ExecutionError, ExecutionResult};
use crate::transaction::Transaction;

verus! {

/// Anything that applies one transaction at a time.
pub trait TransactionExecution: Sized {
    /// The implementor's own well-formedness.
    spec fn execution_wf(&self) -> bool;

    /// What the implementor demands of this transaction so that no
    /// balance leaves the fixed-point range.
    spec fn execution_fits(&self, tx: Transaction) -> bool;

    /// The exact relation between the state before, the state after,
    /// and the result of one application.
    spec fn execution_step(
        pre: Self,
        post: Self,
        tx: Transaction,
        r: Result<ExecutionResult, ExecutionError>,
    ) -> bool;

    /// Applies one transaction.
    fn execute_transaction(&mut self, tx: &Transaction) -> (r: Result<
        ExecutionResult,
        ExecutionError,
    >)
        requires
            old(self).execution_wf(),
            old(self).execution_fits(*tx),
        ensures
            final (self).execution_wf(),
            Self::execution_step(*old(self), *final (self), *tx, r),
    ;
}

} // verus!
