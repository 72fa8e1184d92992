use simledger::account::Account;
use simledger::execution::ExecutionError;
use simledger::transaction::{LedgerBookEntry, Transaction, TransactionTag};

#[test]
fn tags_classify_themselves() {
    assert!(TransactionTag::Deposit(1).is_deposit());
    assert!(!TransactionTag::Deposit(1).is_withdrawal());
    assert!(TransactionTag::Withdrawal(1).is_withdrawal());
    assert!(!TransactionTag::Dispute.is_deposit());
    assert!(!TransactionTag::Resolve.is_withdrawal());
    assert!(!TransactionTag::Chargeback.is_deposit());
}

#[test]
fn book_entries_hand_out_matching_payloads_only() {
    let deposit = LedgerBookEntry(TransactionTag::Deposit(15000));
    assert_eq!(deposit.deposit_amount(), Ok(15000));
    assert_eq!(
        deposit.withdrawal_amount(),
        Err(ExecutionError::InvalidTransactionType)
    );

    let withdrawal = LedgerBookEntry(TransactionTag::Withdrawal(2500));
    assert_eq!(withdrawal.withdrawal_amount(), Ok(2500));
    assert_eq!(
        withdrawal.deposit_amount(),
        Err(ExecutionError::InvalidTransactionType)
    );

    let admin = LedgerBookEntry(TransactionTag::Dispute);
    assert_eq!(
        admin.deposit_amount(),
        Err(ExecutionError::InvalidTransactionType)
    );
}

#[test]
fn transactions_record_as_their_tag() {
    let tx = Transaction {
        id: 4,
        client_id: 2,
        tag: TransactionTag::Deposit(100),
    };
    let entry: LedgerBookEntry = tx.into();
    assert_eq!(entry, LedgerBookEntry(TransactionTag::Deposit(100)));
}

#[test]
fn lookups_are_bound_to_their_pool() {
    let mut account = Account::new(2);
    let deposit = Transaction {
        id: 1,
        client_id: 2,
        tag: TransactionTag::Deposit(15000),
    };
    let _ = account.execute_transaction(&deposit);

    let probe = Transaction {
        id: 1,
        client_id: 2,
        tag: TransactionTag::Dispute,
    };
    assert_eq!(
        account.find_book_entry(&probe),
        Ok(LedgerBookEntry(TransactionTag::Deposit(15000)))
    );
    // never disputed: the disputed pool does not answer
    assert_eq!(
        account.find_disputed_book_entry(&probe),
        Err(ExecutionError::InvalidTransaction)
    );

    let _ = account.execute_transaction(&probe);
    // now the entry lives in the disputed pool alone
    assert_eq!(
        account.find_book_entry(&probe),
        Err(ExecutionError::InvalidTransaction)
    );
    assert_eq!(
        account.find_disputed_book_entry(&probe),
        Ok(LedgerBookEntry(TransactionTag::Deposit(15000)))
    );
}
