use simledger::account::Account;
use simledger::execution::{ExecutionError, ExecutionResult};
use simledger::transaction::{Transaction, TransactionTag};

const CLIENT_ID_A: u16 = 12;

fn fake_tx(id: u32, tag: TransactionTag) -> Transaction {
    Transaction {
        id,
        client_id: CLIENT_ID_A,
        tag,
    }
}

type TestCases = Vec<(Transaction, Result<ExecutionResult, ExecutionError>)>;

fn run_test_contract(cases: TestCases) {
    let mut account = Account::new(CLIENT_ID_A);

    for (tx, exp_result) in cases.iter() {
        assert_eq!(&account.execute_transaction(tx), exp_result);
    }
}

#[test]
fn account_ensure_no_tx_overwrite() {
    run_test_contract(vec![
        (
            fake_tx(1, TransactionTag::Deposit(15000)),
            Ok(ExecutionResult::NewAvailableBalance(15000)),
        ),
        (
            fake_tx(1, TransactionTag::Deposit(1)),
            Err(ExecutionError::TransactionExists),
        ),
        (
            fake_tx(1, TransactionTag::Withdrawal(1)),
            Err(ExecutionError::TransactionExists),
        ),
        (
            fake_tx(2, TransactionTag::Withdrawal(15000)),
            Ok(ExecutionResult::NewAvailableBalance(0)),
        ),
    ]);
}

#[test]
fn account_verify_dispute_contract() {
    run_test_contract(vec![
        (
            fake_tx(1, TransactionTag::Deposit(15000)),
            Ok(ExecutionResult::NewAvailableBalance(15000)),
        ),
        (
            fake_tx(1, TransactionTag::Dispute),
            Ok(ExecutionResult::Accepted),
        ),
        (
            fake_tx(1, TransactionTag::Dispute),
            Err(ExecutionError::InvalidTransaction),
        ),
        (
            fake_tx(1, TransactionTag::Resolve),
            Ok(ExecutionResult::Accepted),
        ),
        (
            fake_tx(1, TransactionTag::Dispute),
            Ok(ExecutionResult::Accepted),
        ),
        (
            fake_tx(1, TransactionTag::Chargeback),
            Ok(ExecutionResult::Accepted),
        ),
    ]);
}

#[test]
fn account_verify_dispute_resolve_chargeback_reject_withdrawal_tx() {
    run_test_contract(vec![
        (
            fake_tx(1, TransactionTag::Deposit(15000)),
            Ok(ExecutionResult::NewAvailableBalance(15000)),
        ),
        (
            fake_tx(2, TransactionTag::Withdrawal(15000)),
            Ok(ExecutionResult::NewAvailableBalance(0)),
        ),
        (
            fake_tx(2, TransactionTag::Dispute),
            Err(ExecutionError::InvalidTransactionType),
        ),
        (
            fake_tx(2, TransactionTag::Resolve),
            // cannot reach the type mismatch: the tx is not in the
            // disputed pool
            Err(ExecutionError::InvalidTransaction),
        ),
        (
            fake_tx(2, TransactionTag::Chargeback),
            // cannot reach the type mismatch: the tx is not in the
            // disputed pool
            Err(ExecutionError::InvalidTransaction),
        ),
    ]);
}
