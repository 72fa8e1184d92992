//! The account transaction-execution state machine: one client's
//! balance state and three disjoint pools of recorded balance-flow
//! transactions (active, disputed, charged back), with the five
//! transaction effects and the dispute lifecycle.
//!
//! The behaviour of every mutating operation is given by a spec-level
//! step function over [`AccountModel`]; the executable methods are
//! proved to implement exactly that step.

use vstd::prelude::*;

use crate::book::{
    all_deposits, contains_id, disjoint_ids, entry_for, find_index, has_id, index_of,
    lemma_entry_at, lemma_push_fresh, lemma_remove_at, lemma_sum_push, lemma_sum_remove,
    nonneg_amounts, sum_signed, unique_ids, BookRecord,
};
use crate::execution::{ExecutionError, ExecutionResult};
use crate::transaction::{LedgerBookEntry, Transaction, TransactionTag};

verus! {

/// The mathematical state of one account: the stored available
/// balance, the freeze flag, and the three pools of recorded
/// balance-flow transactions.
pub ghost struct AccountModel {
    pub client_id: u16,
    pub locked: bool,
    pub available: int,
    pub active_book: Seq<BookRecord>,
    pub disputed_book: Seq<BookRecord>,
    pub chargeback_book: Seq<BookRecord>,
}

impl AccountModel {
    /// The state of a freshly created account.
    pub open spec fn empty(client_id: u16) -> AccountModel {
        AccountModel {
            client_id,
            locked: false,
            available: 0,
            active_book: Seq::empty(),
            disputed_book: Seq::empty(),
            chargeback_book: Seq::empty(),
        }
    }

    /// Held funds: the amounts of the deposits under an open dispute.
    pub open spec fn held(self) -> int {
        sum_signed(self.disputed_book)
    }

    /// Total funds: available plus held; never stored, always derived.
    pub open spec fn total(self) -> int {
        self.available + self.held()
    }

    /// Whether the id was ever recorded as a balance-flow transaction
    /// of this account. Ids are never reused once recorded.
    pub open spec fn id_recorded(self, id: u32) -> bool {
        has_id(self.active_book, id) || has_id(self.disputed_book, id) || has_id(
            self.chargeback_book,
            id,
        )
    }

    /// Every record of every pool carries a non-negative amount.
    pub open spec fn nonneg(self) -> bool {
        nonneg_amounts(self.active_book) && nonneg_amounts(self.disputed_book)
            && nonneg_amounts(self.chargeback_book)
    }

    /// Well-formedness: a transaction id lives in at most one pool,
    /// only deposits are disputed or charged back, the stored
    /// available balance is exactly the net effect of the active pool,
    /// and the derived balances fit the fixed-point representation.
    pub open spec fn wf(self) -> bool {
        &&& unique_ids(self.active_book)
        &&& unique_ids(self.disputed_book)
        &&& unique_ids(self.chargeback_book)
        &&& disjoint_ids(self.active_book, self.disputed_book)
        &&& disjoint_ids(self.active_book, self.chargeback_book)
        &&& disjoint_ids(self.disputed_book, self.chargeback_book)
        &&& all_deposits(self.disputed_book)
        &&& all_deposits(self.chargeback_book)
        &&& self.available == sum_signed(self.active_book)
        &&& i64::MIN <= self.available <= i64::MAX
        &&& i64::MIN <= self.held() <= i64::MAX
        &&& i64::MIN <= self.total() <= i64::MAX
    }
}

/// The effect of a deposit: rejected on a frozen account, on a tag
/// that is not a deposit, and on a reused id; otherwise the amount is
/// added to the available balance and the transaction is recorded in
/// the active pool.
pub open spec fn credit_step(m: AccountModel, tx: Transaction) -> (AccountModel, Result<
    ExecutionResult,
    ExecutionError,
>) {
    if m.locked {
        (m, Err(ExecutionError::AccountLocked))
    } else if !tx.tag.spec_is_deposit() {
        (m, Err(ExecutionError::InvalidTransactionType))
    } else if m.id_recorded(tx.id) {
        (m, Err(ExecutionError::TransactionExists))
    } else {
        let amount = tx.tag.spec_deposit_amount();
        let m2 = AccountModel {
            available: m.available + amount,
            active_book: m.active_book.push((tx.id, LedgerBookEntry(tx.tag))),
            ..m
        };
        (m2, Ok(ExecutionResult::NewAvailableBalance((m.available + amount) as i64)))
    }
}

/// The effect of a withdrawal: rejected on a frozen account, on a tag
/// that is not a withdrawal, on a reused id, and when it exceeds the
/// available funds (no partial withdrawal, no state change); otherwise
/// the amount is taken from the available balance and the transaction
/// is recorded in the active pool.
pub open spec fn debit_step(m: AccountModel, tx: Transaction) -> (AccountModel, Result<
    ExecutionResult,
    ExecutionError,
>) {
    if m.locked {
        (m, Err(ExecutionError::AccountLocked))
    } else if !tx.tag.spec_is_withdrawal() {
        (m, Err(ExecutionError::InvalidTransactionType))
    } else if m.id_recorded(tx.id) {
        (m, Err(ExecutionError::TransactionExists))
    } else {
        let amount = tx.tag.spec_withdrawal_amount();
        if m.available < amount {
            (m, Err(ExecutionError::InsufficientBalance))
        } else {
            let m2 = AccountModel {
                available: m.available - amount,
                active_book: m.active_book.push((tx.id, LedgerBookEntry(tx.tag))),
                ..m
            };
            (m2, Ok(ExecutionResult::NewAvailableBalance((m.available - amount) as i64)))
        }
    }
}

/// The effect of a dispute: the referenced id must be an active
/// deposit (an id already disputed or charged back is not found
/// here); its amount moves from available to held, and the record
/// moves to the disputed pool. Total funds are unchanged.
pub open spec fn dispute_step(m: AccountModel, tx: Transaction) -> (AccountModel, Result<
    ExecutionResult,
    ExecutionError,
>) {
    if !has_id(m.active_book, tx.id) {
        (m, Err(ExecutionError::InvalidTransaction))
    } else if !entry_for(m.active_book, tx.id).spec_is_deposit() {
        (m, Err(ExecutionError::InvalidTransactionType))
    } else {
        let entry = entry_for(m.active_book, tx.id);
        let amount = entry.spec_deposit_amount();
        let m2 = AccountModel {
            available: m.available - amount,
            active_book: m.active_book.remove(index_of(m.active_book, tx.id)),
            disputed_book: m.disputed_book.push((tx.id, entry)),
            ..m
        };
        (m2, Ok(ExecutionResult::Accepted))
    }
}

/// The effect of a resolve: the referenced id must be under an open
/// dispute; its amount moves back from held to available, and the
/// record returns to the active pool. Total funds are unchanged.
pub open spec fn resolve_step(m: AccountModel, tx: Transaction) -> (AccountModel, Result<
    ExecutionResult,
    ExecutionError,
>) {
    if !has_id(m.disputed_book, tx.id) {
        (m, Err(ExecutionError::InvalidTransaction))
    } else if !entry_for(m.disputed_book, tx.id).spec_is_deposit() {
        (m, Err(ExecutionError::InvalidTransactionType))
    } else {
        let entry = entry_for(m.disputed_book, tx.id);
        let amount = entry.spec_deposit_amount();
        let m2 = AccountModel {
            available: m.available + amount,
            disputed_book: m.disputed_book.remove(index_of(m.disputed_book, tx.id)),
            active_book: m.active_book.push((tx.id, entry)),
            ..m
        };
        (m2, Ok(ExecutionResult::Accepted))
    }
}

/// The effect of a chargeback: the referenced id must be under an open
/// dispute; the record moves to the chargeback pool, held and total
/// funds drop by its amount, available funds are untouched, and the
/// account is frozen for good.
pub open spec fn chargeback_step(m: AccountModel, tx: Transaction) -> (AccountModel, Result<
    ExecutionResult,
    ExecutionError,
>) {
    if !has_id(m.disputed_book, tx.id) {
        (m, Err(ExecutionError::InvalidTransaction))
    } else if !entry_for(m.disputed_book, tx.id).spec_is_deposit() {
        (m, Err(ExecutionError::InvalidTransactionType))
    } else {
        let entry = entry_for(m.disputed_book, tx.id);
        let m2 = AccountModel {
            locked: true,
            disputed_book: m.disputed_book.remove(index_of(m.disputed_book, tx.id)),
            chargeback_book: m.chargeback_book.push((tx.id, entry)),
            ..m
        };
        (m2, Ok(ExecutionResult::Accepted))
    }
}

/// The account state machine: one step, routed by tag.
pub open spec fn account_step(m: AccountModel, tx: Transaction) -> (AccountModel, Result<
    ExecutionResult,
    ExecutionError,
>) {
    match tx.tag {
        TransactionTag::Deposit(_) => credit_step(m, tx),
        TransactionTag::Withdrawal(_) => debit_step(m, tx),
        TransactionTag::Dispute => dispute_step(m, tx),
        TransactionTag::Resolve => resolve_step(m, tx),
        TransactionTag::Chargeback => chargeback_step(m, tx),
    }
}

/// The new balances of an accepted deposit stay within the fixed-point
/// range. This is the only demand the machine places on a deposit.
pub open spec fn credit_fits(m: AccountModel, tx: Transaction) -> bool {
    (!m.locked && tx.tag.spec_is_deposit() && !m.id_recorded(tx.id)) ==> {
        let amount = tx.tag.spec_deposit_amount();
        &&& i64::MIN <= m.available + amount <= i64::MAX
        &&& i64::MIN <= m.total() + amount <= i64::MAX
    }
}

/// The new balances of an accepted withdrawal stay within the
/// fixed-point range.
pub open spec fn debit_fits(m: AccountModel, tx: Transaction) -> bool {
    (!m.locked && tx.tag.spec_is_withdrawal() && !m.id_recorded(tx.id) && m.available
        >= tx.tag.spec_withdrawal_amount()) ==> {
        let amount = tx.tag.spec_withdrawal_amount();
        &&& i64::MIN <= m.available - amount <= i64::MAX
        &&& i64::MIN <= m.total() - amount <= i64::MAX
    }
}

/// The new balances of an accepted dispute stay within the fixed-point
/// range. Total funds do not move on a dispute.
pub open spec fn dispute_fits(m: AccountModel, tx: Transaction) -> bool {
    (has_id(m.active_book, tx.id) && entry_for(m.active_book, tx.id).spec_is_deposit()) ==> {
        let amount = entry_for(m.active_book, tx.id).spec_deposit_amount();
        &&& i64::MIN <= m.available - amount <= i64::MAX
        &&& i64::MIN <= m.held() + amount <= i64::MAX
    }
}

/// The new balances of an accepted resolve stay within the fixed-point
/// range. Total funds do not move on a resolve.
pub open spec fn resolve_fits(m: AccountModel, tx: Transaction) -> bool {
    has_id(m.disputed_book, tx.id) ==> {
        let amount = entry_for(m.disputed_book, tx.id).spec_deposit_amount();
        &&& i64::MIN <= m.available + amount <= i64::MAX
        &&& i64::MIN <= m.held() - amount <= i64::MAX
    }
}

/// The new balances of an accepted chargeback stay within the
/// fixed-point range. Available funds do not move on a chargeback.
pub open spec fn chargeback_fits(m: AccountModel, tx: Transaction) -> bool {
    has_id(m.disputed_book, tx.id) ==> {
        let amount = entry_for(m.disputed_book, tx.id).spec_deposit_amount();
        &&& i64::MIN <= m.held() - amount <= i64::MAX
        &&& i64::MIN <= m.total() - amount <= i64::MAX
    }
}

/// What the machine demands of a step so that no balance leaves the
/// fixed-point range: nothing, unless the step will be accepted.
pub open spec fn account_step_fits(m: AccountModel, tx: Transaction) -> bool {
    match tx.tag {
        TransactionTag::Deposit(_) => credit_fits(m, tx),
        TransactionTag::Withdrawal(_) => debit_fits(m, tx),
        TransactionTag::Dispute => dispute_fits(m, tx),
        TransactionTag::Resolve => resolve_fits(m, tx),
        TransactionTag::Chargeback => chargeback_fits(m, tx),
    }
}

/// An accepted deposit keeps the account well-formed.
pub proof fn lemma_credit_wf(m: AccountModel, tx: Transaction)
    requires
        m.wf(),
        credit_fits(m, tx),
    ensures
        credit_step(m, tx).0.wf(),
        credit_step(m, tx).0.client_id == m.client_id,
        m.locked ==> credit_step(m, tx).0.locked,
{
    let m2 = credit_step(m, tx).0;
    if !m.locked && tx.tag.spec_is_deposit() && !m.id_recorded(tx.id) {
        let record = (tx.id, LedgerBookEntry(tx.tag));
        lemma_push_fresh(m.active_book, record);
        lemma_sum_push(m.active_book, record);
        assert(disjoint_ids(m2.active_book, m.disputed_book));
        assert(disjoint_ids(m2.active_book, m.chargeback_book));
    }
}

/// An accepted withdrawal keeps the account well-formed.
pub proof fn lemma_debit_wf(m: AccountModel, tx: Transaction)
    requires
        m.wf(),
        debit_fits(m, tx),
    ensures
        debit_step(m, tx).0.wf(),
        debit_step(m, tx).0.client_id == m.client_id,
        m.locked ==> debit_step(m, tx).0.locked,
{
    let m2 = debit_step(m, tx).0;
    let amount = tx.tag.spec_withdrawal_amount();
    if !m.locked && tx.tag.spec_is_withdrawal() && !m.id_recorded(tx.id) && m.available
        >= amount {
        let record = (tx.id, LedgerBookEntry(tx.tag));
        lemma_push_fresh(m.active_book, record);
        lemma_sum_push(m.active_book, record);
        assert(disjoint_ids(m2.active_book, m.disputed_book));
        assert(disjoint_ids(m2.active_book, m.chargeback_book));
    }
}

/// An accepted dispute keeps the account well-formed.
pub proof fn lemma_dispute_wf(m: AccountModel, tx: Transaction)
    requires
        m.wf(),
        dispute_fits(m, tx),
    ensures
        dispute_step(m, tx).0.wf(),
        dispute_step(m, tx).0.client_id == m.client_id,
        m.locked ==> dispute_step(m, tx).0.locked,
{
    let m2 = dispute_step(m, tx).0;
    if has_id(m.active_book, tx.id) && entry_for(m.active_book, tx.id).spec_is_deposit() {
        let i = index_of(m.active_book, tx.id);
        assert(0 <= i < m.active_book.len() && m.active_book[i].0 == tx.id);
        let entry = m.active_book[i].1;
        lemma_remove_at(m.active_book, i);
        lemma_sum_remove(m.active_book, i);
        assert(!has_id(m.disputed_book, tx.id));
        lemma_push_fresh(m.disputed_book, (tx.id, entry));
        lemma_sum_push(m.disputed_book, (tx.id, entry));
        assert(disjoint_ids(m2.active_book, m2.disputed_book));
        assert(disjoint_ids(m2.active_book, m.chargeback_book));
        assert(disjoint_ids(m2.disputed_book, m.chargeback_book));
        assert(all_deposits(m2.disputed_book));
    }
}

/// An accepted resolve keeps the account well-formed.
pub proof fn lemma_resolve_wf(m: AccountModel, tx: Transaction)
    requires
        m.wf(),
        resolve_fits(m, tx),
    ensures
        resolve_step(m, tx).0.wf(),
        resolve_step(m, tx).0.client_id == m.client_id,
        m.locked ==> resolve_step(m, tx).0.locked,
{
    let m2 = resolve_step(m, tx).0;
    if has_id(m.disputed_book, tx.id) {
        let i = index_of(m.disputed_book, tx.id);
        assert(0 <= i < m.disputed_book.len() && m.disputed_book[i].0 == tx.id);
        let entry = m.disputed_book[i].1;
        assert(entry.spec_is_deposit());
        lemma_remove_at(m.disputed_book, i);
        lemma_sum_remove(m.disputed_book, i);
        assert(!has_id(m.active_book, tx.id));
        lemma_push_fresh(m.active_book, (tx.id, entry));
        lemma_sum_push(m.active_book, (tx.id, entry));
        assert(disjoint_ids(m2.active_book, m2.disputed_book));
        assert(disjoint_ids(m2.active_book, m.chargeback_book));
        assert(disjoint_ids(m2.disputed_book, m.chargeback_book));
        assert(all_deposits(m2.disputed_book));
    }
}

/// An accepted chargeback keeps the account well-formed.
pub proof fn lemma_chargeback_wf(m: AccountModel, tx: Transaction)
    requires
        m.wf(),
        chargeback_fits(m, tx),
    ensures
        chargeback_step(m, tx).0.wf(),
        chargeback_step(m, tx).0.client_id == m.client_id,
        m.locked ==> chargeback_step(m, tx).0.locked,
{
    let m2 = chargeback_step(m, tx).0;
    if has_id(m.disputed_book, tx.id) {
        let i = index_of(m.disputed_book, tx.id);
        assert(0 <= i < m.disputed_book.len() && m.disputed_book[i].0 == tx.id);
        let entry = m.disputed_book[i].1;
        assert(entry.spec_is_deposit());
        lemma_remove_at(m.disputed_book, i);
        lemma_sum_remove(m.disputed_book, i);
        assert(!has_id(m.chargeback_book, tx.id));
        lemma_push_fresh(m.chargeback_book, (tx.id, entry));
        assert(disjoint_ids(m.active_book, m2.chargeback_book));
        assert(disjoint_ids(m2.disputed_book, m2.chargeback_book));
        assert(all_deposits(m2.disputed_book));
        assert(all_deposits(m2.chargeback_book));
    }
}

/// One step of the machine keeps the account well-formed, addresses
/// the same client, and never clears the freeze flag.
pub proof fn lemma_account_step_wf(m: AccountModel, tx: Transaction)
    requires
        m.wf(),
        account_step_fits(m, tx),
    ensures
        account_step(m, tx).0.wf(),
        account_step(m, tx).0.client_id == m.client_id,
        m.locked ==> account_step(m, tx).0.locked,
{
    match tx.tag {
        TransactionTag::Deposit(_) => lemma_credit_wf(m, tx),
        TransactionTag::Withdrawal(_) => lemma_debit_wf(m, tx),
        TransactionTag::Dispute => lemma_dispute_wf(m, tx),
        TransactionTag::Resolve => lemma_resolve_wf(m, tx),
        TransactionTag::Chargeback => lemma_chargeback_wf(m, tx),
    }
}

/// One client's account: the stored available balance, the freeze
/// flag, and the three pools of recorded balance-flow transactions.
#[derive(Clone)]
pub struct Account {
    id: u16,
    is_locked: bool,
    amount_available: i64,
    active_book: Vec<BookRecord>,
    disputed_book: Vec<BookRecord>,
    chargeback_book: Vec<BookRecord>,
}

impl View for Account {
    type V = AccountModel;

    closed spec fn view(&self) -> AccountModel {
        AccountModel {
            client_id: self.id,
            locked: self.is_locked,
            available: self.amount_available as int,
            active_book: self.active_book@,
            disputed_book: self.disputed_book@,
            chargeback_book: self.chargeback_book@,
        }
    }
}

impl DeepView for Account {
    type V = AccountModel;

    open spec fn deep_view(&self) -> AccountModel {
        self.view()
    }
}

impl Account {
    pub fn new(id: u16) -> (r: Account)
        ensures
            r@ == AccountModel::empty(id),
            r@.wf(),
    {
        let account = Account {
            id,
            is_locked: false,
            amount_available: 0,
            active_book: Vec::new(),
            disputed_book: Vec::new(),
            chargeback_book: Vec::new(),
        };
        proof {
            assert(account@.active_book =~= Seq::<BookRecord>::empty());
            assert(account@.disputed_book =~= Seq::<BookRecord>::empty());
            assert(account@.chargeback_book =~= Seq::<BookRecord>::empty());
            assert(account@ == AccountModel::empty(id));
        }
        account
    }

    pub fn id(&self) -> (r: u16)
        ensures
            r == self@.client_id,
    {
        self.id
    }

    pub fn locked(&self) -> (r: bool)
        ensures
            r == self@.locked,
    {
        self.is_locked
    }

    /// Freezes the account. Freezing is permanent: nothing in this
    /// engine clears the flag.
    pub fn lock(&mut self)
        ensures
            final(self)@ == (AccountModel { locked: true, ..old(self)@ }),
            old(self)@.wf() ==> final(self)@.wf(),
    {
        self.is_locked = true;
    }

    /// Freezing is permanent, so this leaves the flag set; it exists
    /// so that callers asking for an unfreeze observe the same frozen
    /// account rather than a revived one.
    pub fn unlock(&mut self)
        ensures
            final(self)@ == (AccountModel { locked: true, ..old(self)@ }),
            old(self)@.wf() ==> final(self)@.wf(),
    {
        self.is_locked = true;
    }

    /// `AccountLocked` when the account is frozen, plain acceptance
    /// otherwise.
    pub fn assert_is_not_locked(&self) -> (r: Result<ExecutionResult, ExecutionError>)
        ensures
            r == if self@.locked {
                Err::<ExecutionResult, ExecutionError>(ExecutionError::AccountLocked)
            } else {
                Ok::<ExecutionResult, ExecutionError>(ExecutionResult::Accepted)
            },
    {
        if self.locked() {
            Err(ExecutionError::AccountLocked)
        } else {
            Ok(ExecutionResult::Accepted)
        }
    }

    pub fn amount_available(&self) -> (r: i64)
        ensures
            r as int == self@.available,
    {
        self.amount_available
    }

    /// Held funds, recomputed on demand: the sum of the deposit
    /// amounts under an open dispute.
    pub fn amount_held(&self) -> (r: i64)
        requires
            self@.wf(),
        ensures
            r as int == self@.held(),
    {
        let ghost book = self@.disputed_book;
        let mut held: i128 = 0;
        let mut i: usize = 0;
        while i < self.disputed_book.len()
            invariant
                self@.wf(),
                book == self@.disputed_book,
                i <= book.len(),
                held as int == sum_signed(book.subrange(0, i as int)),
                -(i as int) * 0x8000_0000_0000_0000 <= held as int <= (i as int)
                    * 0x8000_0000_0000_0000,
            decreases book.len() - i,
        {
            let entry = self.disputed_book[i].1;
            proof {
                // the disputed pool holds deposits only
                assert(self@.disputed_book[i as int].1.spec_is_deposit());
            }
            let amount: i64 = match entry.0 {
                TransactionTag::Deposit(amount) => amount,
                _ => 0,
            };
            proof {
                assert(book.subrange(0, i + 1).drop_last() =~= book.subrange(0, i as int));
                assert(book.subrange(0, i + 1).last() == book[i as int]);
            }
            held = held + amount as i128;
            i = i + 1;
        }
        proof {
            assert(book.subrange(0, book.len() as int) =~= book);
        }
        held as i64
    }

    /// Total funds: available plus held, recomputed on demand.
    pub fn amount_total(&self) -> (r: i64)
        requires
            self@.wf(),
        ensures
            r as int == self@.total(),
    {
        let held = self.amount_held();
        self.amount_available + held
    }

    /// Whether the id was ever recorded in any of the three pools.
    fn recorded(&self, id: u32) -> (r: bool)
        ensures
            r == self@.id_recorded(id),
    {
        contains_id(&self.active_book, id) || contains_id(&self.disputed_book, id)
            || contains_id(&self.chargeback_book, id)
    }

    /// The active entry recorded under `tx.id`, or `InvalidTransaction`
    /// when the id is not in the active pool (ids already disputed or
    /// charged back are not found here).
    pub fn find_book_entry(&self, tx: &Transaction) -> (r: Result<LedgerBookEntry, ExecutionError>)
        requires
            self@.wf(),
        ensures
            r == if has_id(self@.active_book, tx.id) {
                Ok::<LedgerBookEntry, ExecutionError>(entry_for(self@.active_book, tx.id))
            } else {
                Err::<LedgerBookEntry, ExecutionError>(ExecutionError::InvalidTransaction)
            },
    {
        match find_index(&self.active_book, tx.id) {
            None => Err(ExecutionError::InvalidTransaction),
            Some(i) => {
                proof {
                    lemma_entry_at(self@.active_book, i as int);
                }
                Ok(self.active_book[i].1)
            },
        }
    }

    /// The entry recorded under `tx.id` in the disputed pool, or
    /// `InvalidTransaction` when that id is not under an open dispute.
    /// A transaction that was never disputed, or whose dispute already
    /// closed, is not found here.
    pub fn find_disputed_book_entry(&self, tx: &Transaction) -> (r: Result<
        LedgerBookEntry,
        ExecutionError,
    >)
        requires
            self@.wf(),
        ensures
            r == if has_id(self@.disputed_book, tx.id) {
                Ok::<LedgerBookEntry, ExecutionError>(entry_for(self@.disputed_book, tx.id))
            } else {
                Err::<LedgerBookEntry, ExecutionError>(ExecutionError::InvalidTransaction)
            },
    {
        match find_index(&self.disputed_book, tx.id) {
            None => Err(ExecutionError::InvalidTransaction),
            Some(i) => {
                proof {
                    lemma_entry_at(self@.disputed_book, i as int);
                }
                Ok(self.disputed_book[i].1)
            },
        }
    }

    /// Records a deposit: the amount joins the available balance and
    /// the transaction enters the active pool.
    pub fn credit(&mut self, tx: &Transaction) -> (r: Result<ExecutionResult, ExecutionError>)
        requires
            old(self)@.wf(),
            credit_fits(old(self)@, *tx),
        ensures
            final(self)@.wf(),
            (final(self)@, r) == credit_step(old(self)@, *tx),
    {
        proof {
            lemma_credit_wf(old(self)@, *tx);
        }
        if self.is_locked {
            return Err(ExecutionError::AccountLocked);
        }
        let amount = match tx.tag {
            TransactionTag::Deposit(amount) => amount,
            _ => {
                return Err(ExecutionError::InvalidTransactionType);
            },
        };
        if self.recorded(tx.id) {
            return Err(ExecutionError::TransactionExists);
        }
        self.active_book.push((tx.id, LedgerBookEntry(tx.tag)));
        self.amount_available = self.amount_available + amount;
        Ok(ExecutionResult::NewAvailableBalance(self.amount_available))
    }

    /// Records a withdrawal: the amount leaves the available balance
    /// and the transaction enters the active pool. A withdrawal that
    /// exceeds the available funds is rejected whole, with no state
    /// change.
    pub fn debit(&mut self, tx: &Transaction) -> (r: Result<ExecutionResult, ExecutionError>)
        requires
            old(self)@.wf(),
            debit_fits(old(self)@, *tx),
        ensures
            final(self)@.wf(),
            (final(self)@, r) == debit_step(old(self)@, *tx),
    {
        proof {
            lemma_debit_wf(old(self)@, *tx);
        }
        if self.is_locked {
            return Err(ExecutionError::AccountLocked);
        }
        let amount = match tx.tag {
            TransactionTag::Withdrawal(amount) => amount,
            _ => {
                return Err(ExecutionError::InvalidTransactionType);
            },
        };
        if self.recorded(tx.id) {
            return Err(ExecutionError::TransactionExists);
        }
        if self.amount_available < amount {
            return Err(ExecutionError::InsufficientBalance);
        }
        self.active_book.push((tx.id, LedgerBookEntry(tx.tag)));
        self.amount_available = self.amount_available - amount;
        Ok(ExecutionResult::NewAvailableBalance(self.amount_available))
    }

    /// Opens a dispute: the referenced active deposit moves to the
    /// disputed pool and its amount moves from available to held.
    pub fn dispute_book_entry(&mut self, tx: &Transaction) -> (r: Result<
        ExecutionResult,
        ExecutionError,
    >)
        requires
            old(self)@.wf(),
            dispute_fits(old(self)@, *tx),
        ensures
            final(self)@.wf(),
            (final(self)@, r) == dispute_step(old(self)@, *tx),
    {
        proof {
            lemma_dispute_wf(old(self)@, *tx);
        }
        let idx = match find_index(&self.active_book, tx.id) {
            None => {
                return Err(ExecutionError::InvalidTransaction);
            },
            Some(i) => i,
        };
        proof {
            lemma_entry_at(self@.active_book, idx as int);
        }
        let entry = self.active_book[idx].1;
        if !entry.is_deposit() {
            return Err(ExecutionError::InvalidTransactionType);
        }
        let amount = match entry.0 {
            TransactionTag::Deposit(amount) => amount,
            _ => 0,
        };
        let record = self.active_book.remove(idx);
        self.disputed_book.push(record);
        self.amount_available = self.amount_available - amount;
        Ok(ExecutionResult::Accepted)
    }

    /// Closes a dispute in the client's favour: the disputed deposit
    /// returns to the active pool and its amount moves back from held
    /// to available.
    pub fn resolve_book_entry(&mut self, tx: &Transaction) -> (r: Result<
        ExecutionResult,
        ExecutionError,
    >)
        requires
            old(self)@.wf(),
            resolve_fits(old(self)@, *tx),
        ensures
            final(self)@.wf(),
            (final(self)@, r) == resolve_step(old(self)@, *tx),
    {
        proof {
            lemma_resolve_wf(old(self)@, *tx);
        }
        let idx = match find_index(&self.disputed_book, tx.id) {
            None => {
                return Err(ExecutionError::InvalidTransaction);
            },
            Some(i) => i,
        };
        proof {
            lemma_entry_at(self@.disputed_book, idx as int);
        }
        let entry = self.disputed_book[idx].1;
        if !entry.is_deposit() {
            return Err(ExecutionError::InvalidTransactionType);
        }
        let amount = match entry.0 {
            TransactionTag::Deposit(amount) => amount,
            _ => 0,
        };
        let record = self.disputed_book.remove(idx);
        self.active_book.push(record);
        self.amount_available = self.amount_available + amount;
        Ok(ExecutionResult::Accepted)
    }

    /// Closes a dispute against the client: the disputed deposit moves
    /// to the chargeback pool, held and total funds drop by its
    /// amount, and the account is frozen for good.
    pub fn chargeback_book_entry(&mut self, tx: &Transaction) -> (r: Result<
        ExecutionResult,
        ExecutionError,
    >)
        requires
            old(self)@.wf(),
            chargeback_fits(old(self)@, *tx),
        ensures
            final(self)@.wf(),
            (final(self)@, r) == chargeback_step(old(self)@, *tx),
    {
        proof {
            lemma_chargeback_wf(old(self)@, *tx);
        }
        let idx = match find_index(&self.disputed_book, tx.id) {
            None => {
                return Err(ExecutionError::InvalidTransaction);
            },
            Some(i) => i,
        };
        proof {
            lemma_entry_at(self@.disputed_book, idx as int);
        }
        let entry = self.disputed_book[idx].1;
        if !entry.is_deposit() {
            return Err(ExecutionError::InvalidTransactionType);
        }
        let record = self.disputed_book.remove(idx);
        self.chargeback_book.push(record);
        self.lock();
        Ok(ExecutionResult::Accepted)
    }

    /// Applies one transaction to this account, routed by tag. The
    /// caller guarantees that `tx.client_id` addresses this account.
    pub fn execute_transaction(&mut self, tx: &Transaction) -> (r: Result<
        ExecutionResult,
        ExecutionError,
    >)
        requires
            old(self)@.wf(),
            account_step_fits(old(self)@, *tx),
        ensures
            final(self)@.wf(),
            (final(self)@, r) == account_step(old(self)@, *tx),
    {
        match tx.tag {
            TransactionTag::Deposit(_) => self.credit(tx),
            TransactionTag::Withdrawal(_) => self.debit(tx),
            TransactionTag::Dispute => self.dispute_book_entry(tx),
            TransactionTag::Resolve => self.resolve_book_entry(tx),
            TransactionTag::Chargeback => self.chargeback_book_entry(tx),
        }
    }

    /// Whether applying `tx` keeps every derived balance within the
    /// fixed-point range, so that `execute_transaction` may be called.
    /// True in particular for every transaction the account rejects.
    pub fn can_execute(&self, tx: &Transaction) -> (r: bool)
        requires
            self@.wf(),
        ensures
            r == account_step_fits(self@, *tx),
    {
        match tx.tag {
            TransactionTag::Deposit(amount) => {
                if self.is_locked || self.recorded(tx.id) {
                    return true;
                }
                let available = self.amount_available as i128;
                let held = self.amount_held() as i128;
                in_money_range(available + amount as i128) && in_money_range(
                    available + held + amount as i128,
                )
            },
            TransactionTag::Withdrawal(amount) => {
                if self.is_locked || self.recorded(tx.id) || self.amount_available < amount {
                    return true;
                }
                let available = self.amount_available as i128;
                let held = self.amount_held() as i128;
                in_money_range(available - amount as i128) && in_money_range(
                    available + held - amount as i128,
                )
            },
            TransactionTag::Dispute => {
                let idx = match find_index(&self.active_book, tx.id) {
                    None => {
                        return true;
                    },
                    Some(i) => i,
                };
                proof {
                    lemma_entry_at(self@.active_book, idx as int);
                }
                match self.active_book[idx].1.0 {
                    TransactionTag::Deposit(amount) => {
                        let available = self.amount_available as i128;
                        let held = self.amount_held() as i128;
                        in_money_range(available - amount as i128) && in_money_range(
                            held + amount as i128,
                        )
                    },
                    _ => true,
                }
            },
            TransactionTag::Resolve => {
                let idx = match find_index(&self.disputed_book, tx.id) {
                    None => {
                        return true;
                    },
                    Some(i) => i,
                };
                proof {
                    lemma_entry_at(self@.disputed_book, idx as int);
                    assert(self@.disputed_book[idx as int].1.spec_is_deposit());
                }
                match self.disputed_book[idx].1.0 {
                    TransactionTag::Deposit(amount) => {
                        let available = self.amount_available as i128;
                        let held = self.amount_held() as i128;
                        in_money_range(available + amount as i128) && in_money_range(
                            held - amount as i128,
                        )
                    },
                    _ => true,
                }
            },
            TransactionTag::Chargeback => {
                let idx = match find_index(&self.disputed_book, tx.id) {
                    None => {
                        return true;
                    },
                    Some(i) => i,
                };
                proof {
                    lemma_entry_at(self@.disputed_book, idx as int);
                    assert(self@.disputed_book[idx as int].1.spec_is_deposit());
                }
                match self.disputed_book[idx].1.0 {
                    TransactionTag::Deposit(amount) => {
                        let available = self.amount_available as i128;
                        let held = self.amount_held() as i128;
                        in_money_range(held - amount as i128) && in_money_range(
                            available + held - amount as i128,
                        )
                    },
                    _ => true,
                }
            },
        }
    }
}

impl crate::traits::account::AccountDebitCredit for Account {
    open spec fn flow_wf(&self) -> bool {
        self@.wf()
    }

    open spec fn debit_fits(&self, tx: Transaction) -> bool {
        debit_fits(self@, tx)
    }

    open spec fn debit_step(
        pre: Account,
        post: Account,
        tx: Transaction,
        r: Result<ExecutionResult, ExecutionError>,
    ) -> bool {
        (post@, r) == debit_step(pre@, tx)
    }

    open spec fn credit_fits(&self, tx: Transaction) -> bool {
        credit_fits(self@, tx)
    }

    open spec fn credit_step(
        pre: Account,
        post: Account,
        tx: Transaction,
        r: Result<ExecutionResult, ExecutionError>,
    ) -> bool {
        (post@, r) == credit_step(pre@, tx)
    }

    fn debit(&mut self, tx: &Transaction) -> (r: Result<ExecutionResult, ExecutionError>) {
        Account::debit(self, tx)
    }

    fn credit(&mut self, tx: &Transaction) -> (r: Result<ExecutionResult, ExecutionError>) {
        Account::credit(self, tx)
    }
}

impl crate::traits::account::AccountBookEntry for Account {
    open spec fn lookup_wf(&self) -> bool {
        self@.wf()
    }

    open spec fn found_entry(
        &self,
        tx: Transaction,
        r: Result<LedgerBookEntry, ExecutionError>,
    ) -> bool {
        r == if has_id(self@.active_book, tx.id) {
            Ok::<LedgerBookEntry, ExecutionError>(entry_for(self@.active_book, tx.id))
        } else {
            Err::<LedgerBookEntry, ExecutionError>(ExecutionError::InvalidTransaction)
        }
    }

    open spec fn found_disputed_entry(
        &self,
        tx: Transaction,
        r: Result<LedgerBookEntry, ExecutionError>,
    ) -> bool {
        r == if has_id(self@.disputed_book, tx.id) {
            Ok::<LedgerBookEntry, ExecutionError>(entry_for(self@.disputed_book, tx.id))
        } else {
            Err::<LedgerBookEntry, ExecutionError>(ExecutionError::InvalidTransaction)
        }
    }

    fn find_book_entry(&self, tx: &Transaction) -> (r: Result<LedgerBookEntry, ExecutionError>) {
        Account::find_book_entry(self, tx)
    }

    fn find_disputed_book_entry(&self, tx: &Transaction) -> (r: Result<
        LedgerBookEntry,
        ExecutionError,
    >) {
        Account::find_disputed_book_entry(self, tx)
    }
}

impl crate::traits::account::AccountBookActions for Account {
    open spec fn actions_wf(&self) -> bool {
        self@.wf()
    }

    open spec fn dispute_fits(&self, tx: Transaction) -> bool {
        dispute_fits(self@, tx)
    }

    open spec fn dispute_step(
        pre: Account,
        post: Account,
        tx: Transaction,
        r: Result<ExecutionResult, ExecutionError>,
    ) -> bool {
        (post@, r) == dispute_step(pre@, tx)
    }

    open spec fn resolve_fits(&self, tx: Transaction) -> bool {
        resolve_fits(self@, tx)
    }

    open spec fn resolve_step(
        pre: Account,
        post: Account,
        tx: Transaction,
        r: Result<ExecutionResult, ExecutionError>,
    ) -> bool {
        (post@, r) == resolve_step(pre@, tx)
    }

    open spec fn chargeback_fits(&self, tx: Transaction) -> bool {
        chargeback_fits(self@, tx)
    }

    open spec fn chargeback_step(
        pre: Account,
        post: Account,
        tx: Transaction,
        r: Result<ExecutionResult, ExecutionError>,
    ) -> bool {
        (post@, r) == chargeback_step(pre@, tx)
    }

    fn dispute_book_entry(&mut self, tx: &Transaction) -> (r: Result<
        ExecutionResult,
        ExecutionError,
    >) {
        Account::dispute_book_entry(self, tx)
    }

    fn resolve_book_entry(&mut self, tx: &Transaction) -> (r: Result<
        ExecutionResult,
        ExecutionError,
    >) {
        Account::resolve_book_entry(self, tx)
    }

    fn chargeback_book_entry(&mut self, tx: &Transaction) -> (r: Result<
        ExecutionResult,
        ExecutionError,
    >) {
        Account::chargeback_book_entry(self, tx)
    }
}

impl crate::traits::execution::TransactionExecution for Account {
    open spec fn execution_wf(&self) -> bool {
        self@.wf()
    }

    open spec fn execution_fits(&self, tx: Transaction) -> bool {
        account_step_fits(self@, tx)
    }

    open spec fn execution_step(
        pre: Account,
        post: Account,
        tx: Transaction,
        r: Result<ExecutionResult, ExecutionError>,
    ) -> bool {
        (post@, r) == account_step(pre@, tx)
    }

    fn execute_transaction(&mut self, tx: &Transaction) -> (r: Result<
        ExecutionResult,
        ExecutionError,
    >) {
        Account::execute_transaction(self, tx)
    }
}

/// Whether a derived balance stays within the fixed-point range.
fn in_money_range(x: i128) -> (r: bool)
    ensures
        r == (i64::MIN <= x <= i64::MAX),
{
    i64::MIN as i128 <= x && x <= i64::MAX as i128
}

} // verus!
