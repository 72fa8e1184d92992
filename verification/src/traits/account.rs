//! The account's capabilities, split as its callers use them: moving
//! money, looking entries up, and driving the dispute lifecycle.

use vstd::prelude::*;

use crate::execution::{ExecutionError, ExecutionResult};
use crate::transaction::{LedgerBookEntry, Transaction};

verus! {

/// Moving money in and out of an account.
pub trait AccountDebitCredit: Sized {
    /// The implementor's own well-formedness.
    spec fn flow_wf(&self) -> bool;

    /// What a debit demands so that no balance leaves the fixed-point
    /// range.
    spec fn debit_fits(&self, tx: Transaction) -> bool;

    /// The exact relation of one debit.
    spec fn debit_step(
        pre: Self,
        post: Self,
        tx: Transaction,
        r: Result<ExecutionResult, ExecutionError>,
    ) -> bool;

    /// What a credit demands so that no balance leaves the
    /// fixed-point range.
    spec fn credit_fits(&self, tx: Transaction) -> bool;

    /// The exact relation of one credit.
    spec fn credit_step(
        pre: Self,
        post: Self,
        tx: Transaction,
        r: Result<ExecutionResult, ExecutionError>,
    ) -> bool;

    fn debit(&mut self, tx: &Transaction) -> (r: Result<ExecutionResult, ExecutionError>)
        requires
            old(self).flow_wf(),
            old(self).debit_fits(*tx),
        ensures
            final (self).flow_wf(),
            Self::debit_step(*old(self), *final (self), *tx, r),
    ;

    fn credit(&mut self, tx: &Transaction) -> (r: Result<ExecutionResult, ExecutionError>)
        requires
            old(self).flow_wf(),
            old(self).credit_fits(*tx),
        ensures
            final (self).flow_wf(),
            Self::credit_step(*old(self), *final (self), *tx, r),
    ;
}

/// Looking up a recorded balance-flow transaction by id.
pub trait AccountBookEntry {
    /// The implementor's own well-formedness.
    spec fn lookup_wf(&self) -> bool;

    /// What the active-pool lookup returns.
    spec fn found_entry(&self, tx: Transaction, r: Result<LedgerBookEntry, ExecutionError>) -> bool;

    /// What the disputed-pool lookup returns.
    spec fn found_disputed_entry(
        &self,
        tx: Transaction,
        r: Result<LedgerBookEntry, ExecutionError>,
    ) -> bool;

    fn find_book_entry(&self, tx: &Transaction) -> (r: Result<LedgerBookEntry, ExecutionError>)
        requires
            self.lookup_wf(),
        ensures
            self.found_entry(*tx, r),
    ;

    fn find_disputed_book_entry(&self, tx: &Transaction) -> (r: Result<
        LedgerBookEntry,
        ExecutionError,
    >)
        requires
            self.lookup_wf(),
        ensures
            self.found_disputed_entry(*tx, r),
    ;
}

/// Driving the dispute lifecycle of recorded deposits.
pub trait AccountBookActions: Sized {
    /// The implementor's own well-formedness.
    spec fn actions_wf(&self) -> bool;

    /// What a dispute demands so that no balance leaves the
    /// fixed-point range.
    spec fn dispute_fits(&self, tx: Transaction) -> bool;

    /// The exact relation of one dispute.
    spec fn dispute_step(
        pre: Self,
        post: Self,
        tx: Transaction,
        r: Result<ExecutionResult, ExecutionError>,
    ) -> bool;

    /// What a resolve demands so that no balance leaves the
    /// fixed-point range.
    spec fn resolve_fits(&self, tx: Transaction) -> bool;

    /// The exact relation of one resolve.
    spec fn resolve_step(
        pre: Self,
        post: Self,
        tx: Transaction,
        r: Result<ExecutionResult, ExecutionError>,
    ) -> bool;

    /// What a chargeback demands so that no balance leaves the
    /// fixed-point range.
    spec fn chargeback_fits(&self, tx: Transaction) -> bool;

    /// The exact relation of one chargeback.
    spec fn chargeback_step(
        pre: Self,
        post: Self,
        tx: Transaction,
        r: Result<ExecutionResult, ExecutionError>,
    ) -> bool;

    fn dispute_book_entry(&mut self, tx: &Transaction) -> (r: Result<
        ExecutionResult,
        ExecutionError,
    >)
        requires
            old(self).actions_wf(),
            old(self).dispute_fits(*tx),
        ensures
            final (self).actions_wf(),
            Self::dispute_step(*old(self), *final (self), *tx, r),
    ;

    fn resolve_book_entry(&mut self, tx: &Transaction) -> (r: Result<
        ExecutionResult,
        ExecutionError,
    >)
        requires
            old(self).actions_wf(),
            old(self).resolve_fits(*tx),
        ensures
            final (self).actions_wf(),
            Self::resolve_step(*old(self), *final (self), *tx, r),
    ;

    fn chargeback_book_entry(&mut self, tx: &Transaction) -> (r: Result<
        ExecutionResult,
        ExecutionError,
    >)
        requires
            old(self).actions_wf(),
            old(self).chargeback_fits(*tx),
        ensures
            final (self).actions_wf(),
            Self::chargeback_step(*old(self), *final (self), *tx, r),
    ;
}

} // verus!
