//! The global guarantees of the engine, proved once over the
//! spec-level state machine. Together with the operation contracts
//! (each executable method implements its step function exactly, and
//! every step preserves well-formedness) these hold after every step
//! of every transaction sequence.

use vstd::prelude::*;

use crate::account::{
    account_step, account_step_fits, chargeback_step, dispute_step, lemma_account_step_wf,
    resolve_step, AccountModel,
};
use crate::book::{
    entry_for, has_id, index_of, lemma_entry_at, lemma_push_fresh, lemma_sum_all_deposits,
    lemma_sum_push, lemma_sum_split, sum_deposits, sum_withdrawals,
};
use crate::execution::{ExecutionError, ExecutionResult};
use crate::transaction::Transaction;

verus! {

/// Every deposit amount the account ever accepted, over all three
/// pools: a recorded deposit never leaves the books.
pub open spec fn deposits_of(m: AccountModel) -> int {
    sum_deposits(m.active_book) + sum_deposits(m.disputed_book) + sum_deposits(m.chargeback_book)
}

/// Every withdrawal amount the account ever accepted. Withdrawals are
/// immutable once recorded, so they only ever sit in the active pool;
/// the other pools are counted for the statement's sake and are zero.
pub open spec fn withdrawals_of(m: AccountModel) -> int {
    sum_withdrawals(m.active_book) + sum_withdrawals(m.disputed_book) + sum_withdrawals(
        m.chargeback_book,
    )
}

/// The amounts moved into the chargeback pool, gone from the total
/// for good.
pub open spec fn chargebacked_of(m: AccountModel) -> int {
    sum_deposits(m.chargeback_book)
}

/// Conservation: the total funds of a well-formed account are exactly
/// the accepted deposits minus the accepted withdrawals minus the
/// charged-back amounts, recomputed from the books alone,
/// independently of the stored balance field.
pub proof fn lemma_conservation(m: AccountModel)
    requires
        m.wf(),
    ensures
        m.total() == deposits_of(m) - withdrawals_of(m) - chargebacked_of(m),
{
    lemma_sum_split(m.active_book);
    lemma_sum_all_deposits(m.disputed_book);
    lemma_sum_all_deposits(m.chargeback_book);
}

/// Conservation after each step: applying any transaction to a
/// well-formed account leaves the books and the total in the same
/// exact balance.
pub proof fn lemma_conservation_step(m: AccountModel, tx: Transaction)
    requires
        m.wf(),
        account_step_fits(m, tx),
    ensures
        account_step(m, tx).0.total() == deposits_of(account_step(m, tx).0) - withdrawals_of(
            account_step(m, tx).0,
        ) - chargebacked_of(account_step(m, tx).0),
{
    lemma_account_step_wf(m, tx);
    lemma_conservation(account_step(m, tx).0);
}

/// No overdraft: starting from a non-negative available balance and
/// non-negative recorded amounts, no step drives the available
/// balance negative — provided a dispute never reclaims more than the
/// balance still holds — and a withdrawal that would overdraw is
/// rejected as `InsufficientBalance` with no state change.
pub proof fn lemma_no_overdraft(m: AccountModel, tx: Transaction)
    requires
        m.wf(),
        m.nonneg(),
        m.available >= 0,
        tx.tag.spec_is_deposit() ==> tx.tag.spec_deposit_amount() >= 0,
        tx.tag.spec_is_withdrawal() ==> tx.tag.spec_withdrawal_amount() >= 0,
        (tx.tag is Dispute && has_id(m.active_book, tx.id) && entry_for(
            m.active_book,
            tx.id,
        ).spec_is_deposit()) ==> m.available >= entry_for(
            m.active_book,
            tx.id,
        ).spec_deposit_amount(),
    ensures
        account_step(m, tx).0.available >= 0,
        account_step(m, tx).0.nonneg(),
        (!m.locked && tx.tag.spec_is_withdrawal() && !m.id_recorded(tx.id) && m.available
            < tx.tag.spec_withdrawal_amount()) ==> account_step(m, tx) == (
            m,
            Err::<ExecutionResult, ExecutionError>(ExecutionError::InsufficientBalance),
        ),
{
    let m2 = account_step(m, tx).0;
    if tx.tag is Dispute {
        if has_id(m.active_book, tx.id) && entry_for(m.active_book, tx.id).spec_is_deposit() {
            let i = index_of(m.active_book, tx.id);
            assert(0 <= i < m.active_book.len() && m.active_book[i].0 == tx.id);
            assert(m.active_book[i].1.spec_nonneg());
            assert(m2.nonneg());
        }
    } else if tx.tag is Resolve {
        if has_id(m.disputed_book, tx.id) {
            let i = index_of(m.disputed_book, tx.id);
            assert(0 <= i < m.disputed_book.len() && m.disputed_book[i].0 == tx.id);
            assert(m.disputed_book[i].1.spec_nonneg());
            assert(entry_for(m.disputed_book, tx.id).spec_deposit_amount() >= 0);
            assert(m2.nonneg());
        }
    } else if tx.tag is Chargeback {
        if has_id(m.disputed_book, tx.id) {
            let i = index_of(m.disputed_book, tx.id);
            assert(0 <= i < m.disputed_book.len() && m.disputed_book[i].0 == tx.id);
            assert(m.disputed_book[i].1.spec_nonneg());
            assert(m2.nonneg());
        }
    }
}

/// Id immutability: once a balance-flow transaction id is recorded in
/// any pool, a later balance-flow transaction reusing it changes
/// nothing and is rejected — as `TransactionExists` wherever the
/// freeze flag does not answer first.
pub proof fn lemma_id_immutability(m: AccountModel, tx: Transaction)
    requires
        m.wf(),
        m.id_recorded(tx.id),
        tx.tag.spec_is_deposit() || tx.tag.spec_is_withdrawal(),
    ensures
        account_step(m, tx).0 == m,
        account_step(m, tx).1 is Err,
        !m.locked ==> account_step(m, tx).1 == Err::<ExecutionResult, ExecutionError>(
            ExecutionError::TransactionExists,
        ),
{
}

/// Dispute lifecycle closure, first half: dispute followed by resolve
/// of the same id returns the account to the exact pre-dispute
/// balance triple, and leaves the freeze flag alone.
pub proof fn lemma_dispute_resolve_roundtrip(
    m: AccountModel,
    dispute: Transaction,
    resolve: Transaction,
)
    requires
        m.wf(),
        dispute.tag is Dispute,
        resolve.tag is Resolve,
        resolve.id == dispute.id,
        has_id(m.active_book, dispute.id),
        entry_for(m.active_book, dispute.id).spec_is_deposit(),
    ensures
        ({
            let m1 = account_step(m, dispute).0;
            let m2 = account_step(m1, resolve).0;
            &&& account_step(m, dispute).1 == Ok::<ExecutionResult, ExecutionError>(
                ExecutionResult::Accepted,
            )
            &&& account_step(m1, resolve).1 == Ok::<ExecutionResult, ExecutionError>(
                ExecutionResult::Accepted,
            )
            &&& m2.available == m.available
            &&& m2.held() == m.held()
            &&& m2.total() == m.total()
            &&& m2.locked == m.locked
        }),
{
    let i = index_of(m.active_book, dispute.id);
    assert(0 <= i < m.active_book.len() && m.active_book[i].0 == dispute.id);
    let entry = m.active_book[i].1;
    let amount = entry.spec_deposit_amount();
    let m1 = dispute_step(m, dispute).0;
    assert(!has_id(m.disputed_book, dispute.id));
    lemma_push_fresh(m.disputed_book, (dispute.id, entry));
    lemma_sum_push(m.disputed_book, (dispute.id, entry));
    lemma_entry_at(m1.disputed_book, m.disputed_book.len() as int);
    assert(has_id(m1.disputed_book, resolve.id));
    assert(entry_for(m1.disputed_book, resolve.id) == entry);
    let k = index_of(m1.disputed_book, resolve.id);
    let m2 = resolve_step(m1, resolve).0;
    assert(m2.disputed_book =~= m.disputed_book);
    assert(m2.available == m.available);
}

/// Dispute lifecycle closure, second half: dispute followed by
/// chargeback of the same id leaves the available balance where the
/// dispute put it, takes the disputed amount out of held and total
/// for good, and freezes the account.
pub proof fn lemma_dispute_chargeback(
    m: AccountModel,
    dispute: Transaction,
    chargeback: Transaction,
)
    requires
        m.wf(),
        dispute.tag is Dispute,
        chargeback.tag is Chargeback,
        chargeback.id == dispute.id,
        has_id(m.active_book, dispute.id),
        entry_for(m.active_book, dispute.id).spec_is_deposit(),
    ensures
        ({
            let amount = entry_for(m.active_book, dispute.id).spec_deposit_amount();
            let m1 = account_step(m, dispute).0;
            let m2 = account_step(m1, chargeback).0;
            &&& account_step(m1, chargeback).1 == Ok::<ExecutionResult, ExecutionError>(
                ExecutionResult::Accepted,
            )
            &&& m2.available == m1.available
            &&& m1.available == m.available - amount
            &&& m2.held() == m1.held() - amount
            &&& m2.held() == m.held()
            &&& m2.total() == m.total() - amount
            &&& m2.locked
        }),
{
    let i = index_of(m.active_book, dispute.id);
    assert(0 <= i < m.active_book.len() && m.active_book[i].0 == dispute.id);
    let entry = m.active_book[i].1;
    let amount = entry.spec_deposit_amount();
    let m1 = dispute_step(m, dispute).0;
    assert(!has_id(m.disputed_book, dispute.id));
    lemma_push_fresh(m.disputed_book, (dispute.id, entry));
    lemma_sum_push(m.disputed_book, (dispute.id, entry));
    lemma_entry_at(m1.disputed_book, m.disputed_book.len() as int);
    assert(has_id(m1.disputed_book, chargeback.id));
    assert(entry_for(m1.disputed_book, chargeback.id) == entry);
    let m2 = chargeback_step(m1, chargeback).0;
    assert(m2.disputed_book =~= m.disputed_book);
}

/// Lock finality: a frozen account stays frozen under every
/// transaction, and rejects every balance-flow transaction as
/// `AccountLocked` with no state change, whatever its id or amount.
pub proof fn lemma_lock_finality(m: AccountModel, tx: Transaction)
    requires
        m.wf(),
        m.locked,
    ensures
        account_step(m, tx).0.locked,
        (tx.tag.spec_is_deposit() || tx.tag.spec_is_withdrawal()) ==> account_step(m, tx) == (
            m,
            Err::<ExecutionResult, ExecutionError>(ExecutionError::AccountLocked),
        ),
{
}

} // verus!
