//! Parsing of record kinds and semantic validation of incoming records.

use payment_ledger::transaction::{
    EngineError, ParseError, StoredTransaction, TransactionRecord, TransactionType,
};

#[test]
fn test_transaction_type_parsing() {
    assert!(matches!(
        TransactionType::from_str("deposit").unwrap(),
        TransactionType::Deposit
    ));
    assert!(matches!(
        TransactionType::from_str("withdrawal").unwrap(),
        TransactionType::Withdrawal
    ));
    assert!(matches!(
        TransactionType::from_str("dispute").unwrap(),
        TransactionType::Dispute
    ));

    // Test case insensitive
    assert!(matches!(
        TransactionType::from_str("DEPOSIT").unwrap(),
        TransactionType::Deposit
    ));

    // Test invalid type
    assert!(TransactionType::from_str("invalid").is_err());
}

#[test]
fn test_transaction_type_parsing_trims_whitespace() {
    assert!(matches!(
        TransactionType::from_str(" resolve\t").unwrap(),
        TransactionType::Resolve
    ));
    assert!(matches!(
        TransactionType::from_str("\n Chargeback ").unwrap(),
        TransactionType::Chargeback
    ));
    assert_eq!(
        TransactionType::from_str("   "),
        Err(ParseError::UnknownTransactionType)
    );
    assert_eq!(
        TransactionType::from_str("de posit"),
        Err(ParseError::UnknownTransactionType)
    );
}

#[test]
fn test_transaction_record_validate_with_amount() {
    let valid_deposit = TransactionRecord {
        tx_type: TransactionType::Deposit,
        client: 1,
        tx: 1,
        amount: Some(10_000_000),
    };
    assert!(valid_deposit.validate().is_ok());

    let invalid_deposit = TransactionRecord {
        tx_type: TransactionType::Deposit,
        client: 1,
        tx: 1,
        amount: None,
    };
    assert!(invalid_deposit.validate().is_err());
}

#[test]
fn test_transaction_record_validate_without_amount() {
    let dispute = TransactionRecord {
        tx_type: TransactionType::Dispute,
        client: 1,
        tx: 1,
        amount: None,
    };
    assert!(dispute.validate().is_ok());

    let resolve = TransactionRecord {
        tx_type: TransactionType::Resolve,
        client: 1,
        tx: 1,
        amount: None,
    };
    assert!(resolve.validate().is_ok());
}

#[test]
fn test_withdrawal_validation() {
    let valid_withdrawal = TransactionRecord {
        tx_type: TransactionType::Withdrawal,
        client: 1,
        tx: 1,
        amount: Some(5_000_000),
    };
    assert!(valid_withdrawal.validate().is_ok());

    let invalid_withdrawal = TransactionRecord {
        tx_type: TransactionType::Withdrawal,
        client: 1,
        tx: 1,
        amount: None,
    };
    assert!(invalid_withdrawal.validate().is_err());
}

#[test]
fn test_stored_transaction_creation() {
    let stored_tx = StoredTransaction {
        client: 123,
        amount: 15_500_000,
        tx_type: TransactionType::Deposit,
        disputed: false,
    };

    assert_eq!(stored_tx.client, 123);
    assert_eq!(stored_tx.amount, 15_500_000);
    assert!(matches!(stored_tx.tx_type, TransactionType::Deposit));
    assert!(!stored_tx.disputed);
}

#[test]
fn test_validate_error_is_missing_amount() {
    let bad = TransactionRecord {
        tx_type: TransactionType::Deposit,
        client: 7,
        tx: 9,
        amount: None,
    };
    assert_eq!(bad.validate(), Err(EngineError::MissingAmount));
    assert_eq!(
        EngineError::MissingAmount.message(),
        "deposit or withdrawal requires an amount"
    );
    assert_eq!(
        ParseError::UnknownTransactionType.message(),
        "unknown transaction type"
    );
}
