//! The value and tag model: fixed-point money amounts, the closed set
//! of transaction kinds, and the stored book entry that administrative
//! transactions later reference by id.

use vstd::prelude::*;

use crate::execution::ExecutionError;

verus! {

/// One of the five transaction kinds. `Deposit` and `Withdrawal` are
/// balance-flow transactions and carry a fixed-point amount (scale
/// 1/10,000); the other three are administrative and reference an
/// earlier balance-flow transaction by id.
#[derive(Debug, Copy, Clone, PartialEq, Eq)]
pub enum TransactionTag {
    Deposit(i64),
    Withdrawal(i64),
    Dispute,
    Resolve,
    Chargeback,
}

impl TransactionTag {
    pub open spec fn spec_is_deposit(self) -> bool {
        matches!(self, TransactionTag::Deposit(_))
    }

    pub open spec fn spec_is_withdrawal(self) -> bool {
        matches!(self, TransactionTag::Withdrawal(_))
    }

    /// The amount a deposit tag carries; zero for any other tag.
    pub open spec fn spec_deposit_amount(self) -> int {
        match self {
            TransactionTag::Deposit(amount) => amount as int,
            _ => 0,
        }
    }

    /// The amount a withdrawal tag carries; zero for any other tag.
    pub open spec fn spec_withdrawal_amount(self) -> int {
        match self {
            TransactionTag::Withdrawal(amount) => amount as int,
            _ => 0,
        }
    }

    /// The net effect of a recorded balance-flow tag on the available
    /// balance: deposits add their amount, withdrawals subtract it.
    pub open spec fn signed_amount(self) -> int {
        match self {
            TransactionTag::Deposit(amount) => amount as int,
            TransactionTag::Withdrawal(amount) => -(amount as int),
            _ => 0,
        }
    }

    pub fn is_deposit(&self) -> (r: bool)
        ensures
            r == self.spec_is_deposit(),
    {
        matches!(self, TransactionTag::Deposit(_))
    }

    pub fn is_withdrawal(&self) -> (r: bool)
        ensures
            r == self.spec_is_withdrawal(),
    {
        matches!(self, TransactionTag::Withdrawal(_))
    }
}

/// A validated transaction record: the id supplied by the input stream,
/// the addressed client, and the kind.
#[derive(Debug, Copy, Clone)]
pub struct Transaction {
    pub id: u32,
    pub client_id: u16,
    pub tag: TransactionTag,
}

/// A stored record of a balance-flow transaction's tag, kept for later
/// lookup by administrative transactions. Administrative transactions
/// are never stored as book entries.
#[derive(Debug, Copy, Clone, PartialEq, Eq)]
pub struct LedgerBookEntry(pub TransactionTag);

impl LedgerBookEntry {
    pub open spec fn spec_is_deposit(self) -> bool {
        self.0.spec_is_deposit()
    }

    pub open spec fn spec_is_withdrawal(self) -> bool {
        self.0.spec_is_withdrawal()
    }

    pub open spec fn spec_deposit_amount(self) -> int {
        self.0.spec_deposit_amount()
    }

    pub open spec fn spec_withdrawal_amount(self) -> int {
        self.0.spec_withdrawal_amount()
    }

    pub open spec fn signed_amount(self) -> int {
        self.0.signed_amount()
    }

    /// Whether the recorded amount, if any, is non-negative.
    pub open spec fn spec_nonneg(self) -> bool {
        match self.0 {
            TransactionTag::Deposit(amount) => amount >= 0,
            TransactionTag::Withdrawal(amount) => amount >= 0,
            _ => true,
        }
    }

    /// The deposit amount, or `InvalidTransactionType` when the entry
    /// does not record a deposit.
    pub fn deposit_amount(&self) -> (r: Result<i64, ExecutionError>)
        ensures
            self.spec_is_deposit() ==> r == Ok::<i64, ExecutionError>(
                self.spec_deposit_amount() as i64,
            ),
            !self.spec_is_deposit() ==> r == Err::<i64, ExecutionError>(
                ExecutionError::InvalidTransactionType,
            ),
    {
        match self.0 {
            TransactionTag::Deposit(amount) => Ok(amount),
            _ => Err(ExecutionError::InvalidTransactionType),
        }
    }

    /// The withdrawal amount, or `InvalidTransactionType` when the
    /// entry does not record a withdrawal.
    pub fn withdrawal_amount(&self) -> (r: Result<i64, ExecutionError>)
        ensures
            self.spec_is_withdrawal() ==> r == Ok::<i64, ExecutionError>(
                self.spec_withdrawal_amount() as i64,
            ),
            !self.spec_is_withdrawal() ==> r == Err::<i64, ExecutionError>(
                ExecutionError::InvalidTransactionType,
            ),
    {
        match self.0 {
            TransactionTag::Withdrawal(amount) => Ok(amount),
            _ => Err(ExecutionError::InvalidTransactionType),
        }
    }

    pub fn is_deposit(&self) -> (r: bool)
        ensures
            r == self.spec_is_deposit(),
    {
        self.0.is_deposit()
    }

    pub fn is_withdrawal(&self) -> (r: bool)
        ensures
            r == self.spec_is_withdrawal(),
    {
        self.0.is_withdrawal()
    }
}

impl crate::traits::transaction::TagConstraints for TransactionTag {
    open spec fn tag_is_deposit(&self) -> bool {
        self.spec_is_deposit()
    }

    open spec fn tag_is_withdrawal(&self) -> bool {
        self.spec_is_withdrawal()
    }

    fn is_deposit(&self) -> (r: bool) {
        TransactionTag::is_deposit(self)
    }

    fn is_withdrawal(&self) -> (r: bool) {
        TransactionTag::is_withdrawal(self)
    }
}

impl crate::traits::transaction::TagConstraints for LedgerBookEntry {
    open spec fn tag_is_deposit(&self) -> bool {
        self.spec_is_deposit()
    }

    open spec fn tag_is_withdrawal(&self) -> bool {
        self.spec_is_withdrawal()
    }

    fn is_deposit(&self) -> (r: bool) {
        LedgerBookEntry::is_deposit(self)
    }

    fn is_withdrawal(&self) -> (r: bool) {
        LedgerBookEntry::is_withdrawal(self)
    }
}

impl crate::traits::transaction::BookEntryExt for LedgerBookEntry {
    open spec fn entry_deposit_amount(&self) -> int {
        self.spec_deposit_amount()
    }

    open spec fn entry_withdrawal_amount(&self) -> int {
        self.spec_withdrawal_amount()
    }

    fn deposit_amount(&self) -> (r: Result<i64, ExecutionError>) {
        LedgerBookEntry::deposit_amount(self)
    }

    fn withdrawal_amount(&self) -> (r: Result<i64, ExecutionError>) {
        LedgerBookEntry::withdrawal_amount(self)
    }
}

impl From<Transaction> for LedgerBookEntry {
    /// The book entry a balance-flow transaction is recorded as: its
    /// tag, stripped of the routing fields.
    fn from(tx: Transaction) -> (r: LedgerBookEntry) {
        LedgerBookEntry(tx.tag)
    }
}

impl vstd::std_specs::convert::FromSpecImpl<Transaction> for LedgerBookEntry {
    open spec fn obeys_from_spec() -> bool {
        true
    }

    open spec fn from_spec(tx: Transaction) -> LedgerBookEntry {
        LedgerBookEntry(tx.tag)
    }
}

} // verus!
