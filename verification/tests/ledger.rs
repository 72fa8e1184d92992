use simledger::account::Account;
use simledger::execution::{ExecutionError, ExecutionResult};
use simledger::ledger::Ledger;
use simledger::transaction::{Transaction, TransactionTag};

fn tx(id: u32, client_id: u16, tag: TransactionTag) -> Transaction {
    Transaction { id, client_id, tag }
}

#[test]
fn ledger_creates_accounts_lazily_and_routes_by_client() {
    let mut ledger = Ledger::new();
    assert_eq!(ledger.accounts().len(), 0);

    let r = ledger.execute_transaction(&tx(1, 5, TransactionTag::Deposit(15000)));
    assert_eq!(r, Ok(ExecutionResult::NewAvailableBalance(15000)));
    let r = ledger.execute_transaction(&tx(2, 9, TransactionTag::Deposit(20000)));
    assert_eq!(r, Ok(ExecutionResult::NewAvailableBalance(20000)));
    let r = ledger.execute_transaction(&tx(3, 5, TransactionTag::Withdrawal(5000)));
    assert_eq!(r, Ok(ExecutionResult::NewAvailableBalance(10000)));

    let accounts = ledger.accounts();
    assert_eq!(accounts.len(), 2);
    assert_eq!(accounts[0].id(), 5);
    assert_eq!(accounts[0].amount_available(), 10000);
    assert_eq!(accounts[1].id(), 9);
    assert_eq!(accounts[1].amount_available(), 20000);
}

#[test]
fn ledger_ids_are_scoped_per_account() {
    // the same transaction id may be used by two different clients
    let mut ledger = Ledger::new();
    let r = ledger.execute_transaction(&tx(1, 5, TransactionTag::Deposit(15000)));
    assert!(r.is_ok());
    let r = ledger.execute_transaction(&tx(1, 9, TransactionTag::Deposit(20000)));
    assert!(r.is_ok());
    // but not twice by the same client
    let r = ledger.execute_transaction(&tx(1, 5, TransactionTag::Withdrawal(1)));
    assert_eq!(r, Err(ExecutionError::TransactionExists));
}

#[test]
fn ledger_can_execute_guards_the_fixed_point_range() {
    let mut ledger = Ledger::new();
    let big = tx(1, 5, TransactionTag::Deposit(i64::MAX));
    assert!(ledger.can_execute(&big));
    let r = ledger.execute_transaction(&big);
    assert_eq!(r, Ok(ExecutionResult::NewAvailableBalance(i64::MAX)));
    // one more unit would overflow the available balance
    let one = tx(2, 5, TransactionTag::Deposit(1));
    assert!(!ledger.can_execute(&one));
    // a rejected transaction is always safe to hand over
    let reuse = tx(1, 5, TransactionTag::Deposit(1));
    assert!(ledger.can_execute(&reuse));
    assert_eq!(
        ledger.execute_transaction(&reuse),
        Err(ExecutionError::TransactionExists)
    );
}

#[test]
fn two_records_balance_flow_scenario() {
    let mut account = Account::new(1);
    let _ = account.execute_transaction(&tx(1, 1, TransactionTag::Deposit(15000)));
    let _ = account.execute_transaction(&tx(2, 1, TransactionTag::Withdrawal(10000)));
    assert_eq!(
        (
            account.amount_total(),
            account.amount_available(),
            account.amount_held(),
            account.locked()
        ),
        (5000, 5000, 0, false)
    );
}

#[test]
fn dispute_holds_funds_scenario() {
    let mut account = Account::new(1);
    let _ = account.execute_transaction(&tx(1, 1, TransactionTag::Deposit(15000)));
    let _ = account.execute_transaction(&tx(2, 1, TransactionTag::Deposit(15000)));
    let _ = account.execute_transaction(&tx(3, 1, TransactionTag::Deposit(15000)));
    let _ = account.execute_transaction(&tx(1, 1, TransactionTag::Dispute));
    assert_eq!(
        (
            account.amount_total(),
            account.amount_available(),
            account.amount_held(),
            account.locked()
        ),
        (45000, 30000, 15000, false)
    );
}

#[test]
fn chargeback_without_dispute_is_rejected_scenario() {
    let mut account = Account::new(1);
    let _ = account.execute_transaction(&tx(1, 1, TransactionTag::Deposit(15000)));
    let r = account.execute_transaction(&tx(1, 1, TransactionTag::Chargeback));
    assert_eq!(r, Err(ExecutionError::InvalidTransaction));
    assert_eq!(
        (
            account.amount_total(),
            account.amount_available(),
            account.amount_held(),
            account.locked()
        ),
        (15000, 15000, 0, false)
    );
}

#[test]
fn chargeback_after_dispute_freezes_the_account_scenario() {
    let mut account = Account::new(1);
    let _ = account.execute_transaction(&tx(1, 1, TransactionTag::Deposit(15000)));
    assert_eq!(
        account.execute_transaction(&tx(1, 1, TransactionTag::Dispute)),
        Ok(ExecutionResult::Accepted)
    );
    assert_eq!(
        account.execute_transaction(&tx(1, 1, TransactionTag::Chargeback)),
        Ok(ExecutionResult::Accepted)
    );
    assert_eq!(
        (
            account.amount_total(),
            account.amount_available(),
            account.amount_held(),
            account.locked()
        ),
        (0, 0, 0, true)
    );
    // every later balance-flow transaction answers AccountLocked
    assert_eq!(
        account.execute_transaction(&tx(2, 1, TransactionTag::Deposit(1))),
        Err(ExecutionError::AccountLocked)
    );
    assert_eq!(
        account.execute_transaction(&tx(3, 1, TransactionTag::Withdrawal(1))),
        Err(ExecutionError::AccountLocked)
    );
    assert_eq!(
        (
            account.amount_total(),
            account.amount_available(),
            account.amount_held(),
            account.locked()
        ),
        (0, 0, 0, true)
    );
}

#[test]
fn total_funds_match_the_books_recomputed_by_hand() {
    // deposits minus withdrawals minus charged-back amounts
    let mut account = Account::new(1);
    let _ = account.execute_transaction(&tx(1, 1, TransactionTag::Deposit(15000)));
    let _ = account.execute_transaction(&tx(2, 1, TransactionTag::Deposit(20000)));
    let _ = account.execute_transaction(&tx(3, 1, TransactionTag::Withdrawal(5000)));
    let _ = account.execute_transaction(&tx(1, 1, TransactionTag::Dispute));
    let _ = account.execute_transaction(&tx(1, 1, TransactionTag::Chargeback));
    let deposits = 15000 + 20000;
    let withdrawals = 5000;
    let charged_back = 15000;
    assert_eq!(account.amount_total(), deposits - withdrawals - charged_back);
    assert_eq!(account.amount_available(), 15000);
    assert_eq!(account.amount_held(), 0);
}

#[test]
fn dispute_then_resolve_restores_the_balance_triple() {
    let mut account = Account::new(1);
    let _ = account.execute_transaction(&tx(1, 1, TransactionTag::Deposit(15000)));
    let _ = account.execute_transaction(&tx(2, 1, TransactionTag::Deposit(7500)));
    let before = (
        account.amount_total(),
        account.amount_available(),
        account.amount_held(),
    );
    let _ = account.execute_transaction(&tx(1, 1, TransactionTag::Dispute));
    assert_ne!(
        before,
        (
            account.amount_total(),
            account.amount_available(),
            account.amount_held()
        )
    );
    let _ = account.execute_transaction(&tx(1, 1, TransactionTag::Resolve));
    assert_eq!(
        before,
        (
            account.amount_total(),
            account.amount_available(),
            account.amount_held()
        )
    );
}

#[test]
fn unlock_never_revives_a_frozen_account() {
    let mut account = Account::new(1);
    account.lock();
    assert!(account.locked());
    account.unlock();
    assert!(account.locked());
    assert_eq!(
        account.execute_transaction(&tx(1, 1, TransactionTag::Deposit(1))),
        Err(ExecutionError::AccountLocked)
    );
}

#[test]
fn assert_is_not_locked_reports_the_flag() {
    let mut account = Account::new(1);
    assert_eq!(account.assert_is_not_locked(), Ok(ExecutionResult::Accepted));
    account.lock();
    assert_eq!(
        account.assert_is_not_locked(),
        Err(ExecutionError::AccountLocked)
    );
}
