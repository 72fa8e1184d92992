use simledger::codec::{convert_csv_tx_to_transaction, parse_amount, parse_number, CsvTransaction, RunnerError};
use simledger::transaction::TransactionTag;

fn record(tx_type: &str, client: &str, tx: &str, amount: &str) -> CsvTransaction {
    CsvTransaction {
        tx_type: tx_type.to_string(),
        client: client.to_string(),
        tx: tx.to_string(),
        amount: amount.to_string(),
    }
}

#[test]
fn parse_number_accepts_plain_digits() {
    assert_eq!(parse_number("0", u64::MAX), Some(0));
    assert_eq!(parse_number("42", u64::MAX), Some(42));
    assert_eq!(parse_number("65535", 65535), Some(65535));
    assert_eq!(parse_number("007", u64::MAX), Some(7));
}

#[test]
fn parse_number_rejects_malformed_or_oversized_columns() {
    assert_eq!(parse_number("", u64::MAX), None);
    assert_eq!(parse_number("12a", u64::MAX), None);
    assert_eq!(parse_number("-3", u64::MAX), None);
    assert_eq!(parse_number("65536", 65535), None);
    assert_eq!(parse_number("99999999999999999999999999", u64::MAX), None);
}

#[test]
fn parse_amount_scales_to_fixed_point() {
    assert_eq!(parse_amount("1.5"), Some(15000));
    assert_eq!(parse_amount("3"), Some(30000));
    assert_eq!(parse_amount("1.2345"), Some(12345));
    assert_eq!(parse_amount("0.0001"), Some(1));
    assert_eq!(parse_amount("-2"), Some(-20000));
    assert_eq!(parse_amount("-0.25"), Some(-2500));
    assert_eq!(parse_amount("10."), Some(100000));
    // digits past the fourth are cut off
    assert_eq!(parse_amount("1.23456789"), Some(12345));
}

#[test]
fn parse_amount_rejects_malformed_or_oversized_columns() {
    assert_eq!(parse_amount(""), None);
    assert_eq!(parse_amount("-"), None);
    assert_eq!(parse_amount(".5"), None);
    assert_eq!(parse_amount("+5"), None);
    assert_eq!(parse_amount("1.2.3"), None);
    assert_eq!(parse_amount("1,5"), None);
    assert_eq!(parse_amount("one"), None);
    // one step past the largest representable amount
    assert_eq!(parse_amount("922337203685477.5808"), None);
    assert_eq!(parse_amount("922337203685477.5807"), Some(i64::MAX));
}

#[test]
fn convert_decodes_balance_flow_records() {
    let tx = convert_csv_tx_to_transaction(&record("deposit", "12", "7", "1.5")).unwrap();
    assert_eq!(tx.client_id, 12);
    assert_eq!(tx.id, 7);
    assert!(matches!(tx.tag, TransactionTag::Deposit(15000)));

    let tx = convert_csv_tx_to_transaction(&record("withdrawal", "3", "9", "0.25")).unwrap();
    assert!(matches!(tx.tag, TransactionTag::Withdrawal(2500)));
}

#[test]
fn convert_decodes_administrative_records_without_an_amount() {
    // the amount column of an administrative record is not read
    let tx = convert_csv_tx_to_transaction(&record("dispute", "1", "2", "")).unwrap();
    assert!(matches!(tx.tag, TransactionTag::Dispute));
    let tx = convert_csv_tx_to_transaction(&record("resolve", "1", "2", "nonsense")).unwrap();
    assert!(matches!(tx.tag, TransactionTag::Resolve));
    let tx = convert_csv_tx_to_transaction(&record("chargeback", "1", "2", "-")).unwrap();
    assert!(matches!(tx.tag, TransactionTag::Chargeback));
}

#[test]
fn convert_reports_the_first_offending_column() {
    let e = convert_csv_tx_to_transaction(&record("transfer", "1", "2", "1.0")).unwrap_err();
    assert!(matches!(e, RunnerError::InvalidColumn(col) if col == "transfer"));

    let e = convert_csv_tx_to_transaction(&record("deposit", "1", "2", "1.0.0")).unwrap_err();
    assert!(matches!(e, RunnerError::InvalidColumn(col) if col == "1.0.0"));

    let e = convert_csv_tx_to_transaction(&record("deposit", "70000", "2", "1.0")).unwrap_err();
    assert!(matches!(e, RunnerError::InvalidColumn(col) if col == "70000"));

    let e = convert_csv_tx_to_transaction(&record("deposit", "1", "x", "1.0")).unwrap_err();
    assert!(matches!(e, RunnerError::InvalidColumn(col) if col == "x"));
}
