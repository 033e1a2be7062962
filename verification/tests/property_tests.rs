//! Concrete checks of the ledger's stated laws: sums with no disputes, failed
//! withdrawals leaving no history, dispute idempotence, resolve and chargeback
//! effects, the permanence of a lock, and the output rounding convention.

use payment_ledger::account::{round_dp4, Account, AccountOutput};
use payment_ledger::engine::PaymentEngine;
use payment_ledger::transaction::{EngineError, TransactionRecord, TransactionType};

fn deposit(client: u16, tx: u32, amount: u64) -> TransactionRecord {
    TransactionRecord { tx_type: TransactionType::Deposit, client, tx, amount: Some(amount) }
}

fn withdrawal(client: u16, tx: u32, amount: u64) -> TransactionRecord {
    TransactionRecord { tx_type: TransactionType::Withdrawal, client, tx, amount: Some(amount) }
}

fn dispute(client: u16, tx: u32) -> TransactionRecord {
    TransactionRecord { tx_type: TransactionType::Dispute, client, tx, amount: None }
}

fn resolve(client: u16, tx: u32) -> TransactionRecord {
    TransactionRecord { tx_type: TransactionType::Resolve, client, tx, amount: None }
}

fn chargeback(client: u16, tx: u32) -> TransactionRecord {
    TransactionRecord { tx_type: TransactionType::Chargeback, client, tx, amount: None }
}

#[test]
fn total_is_deposits_minus_successful_withdrawals() {
    let mut engine = PaymentEngine::new();
    engine.process_transaction(deposit(1, 1, 4_000_000)).unwrap();
    engine.process_transaction(deposit(2, 2, 9_000_000)).unwrap();
    engine.process_transaction(withdrawal(1, 3, 1_500_000)).unwrap();
    engine.process_transaction(withdrawal(1, 4, 9_000_000)).unwrap(); // refused: uncovered
    engine.process_transaction(deposit(1, 5, 2_000_000)).unwrap();
    engine.process_transaction(withdrawal(2, 6, 4_000_000)).unwrap();

    let rows = engine.get_accounts();
    assert_eq!(rows.len(), 2);
    // client 1: 4.0 + 2.0 - 1.5 = 4.5; client 2: 9.0 - 4.0 = 5.0
    assert_eq!(rows[0].client, 1);
    assert_eq!(rows[0].total, 45_000);
    assert_eq!(rows[0].held, 0);
    assert_eq!(rows[1].client, 2);
    assert_eq!(rows[1].total, 50_000);
    assert_eq!(rows[1].held, 0);
}

#[test]
fn failed_withdrawal_is_not_disputable() {
    let mut engine = PaymentEngine::new();
    engine.process_transaction(deposit(1, 1, 3_000_000)).unwrap();
    engine.process_transaction(withdrawal(1, 2, 5_000_000)).unwrap(); // refused
    engine.process_transaction(dispute(1, 2)).unwrap(); // no history entry: no-op

    let rows = engine.get_accounts();
    assert_eq!(rows[0].available, 30_000);
    assert_eq!(rows[0].held, 0);
}

#[test]
fn dispute_is_idempotent() {
    let mut engine = PaymentEngine::new();
    engine.process_transaction(deposit(1, 1, 6_000_000)).unwrap();
    engine.process_transaction(deposit(1, 2, 1_000_000)).unwrap();
    engine.process_transaction(dispute(1, 1)).unwrap();
    engine.process_transaction(dispute(1, 1)).unwrap(); // second attempt no-ops

    let rows = engine.get_accounts();
    assert_eq!(rows[0].available, 10_000);
    assert_eq!(rows[0].held, 60_000); // held once, not twice
    assert_eq!(rows[0].total, 70_000);
}

#[test]
fn resolve_restores_dispute_exactly() {
    let mut engine = PaymentEngine::new();
    engine.process_transaction(deposit(1, 1, 7_654_321)).unwrap();
    engine.process_transaction(deposit(1, 2, 1_111_111)).unwrap();
    let before = engine.get_accounts();
    engine.process_transaction(dispute(1, 1)).unwrap();
    engine.process_transaction(resolve(1, 1)).unwrap();
    let after = engine.get_accounts();
    assert_eq!(before, after);
}

#[test]
fn chargeback_takes_from_held_and_locks() {
    let mut engine = PaymentEngine::new();
    engine.process_transaction(deposit(1, 1, 8_000_000)).unwrap();
    engine.process_transaction(deposit(1, 2, 3_000_000)).unwrap();
    engine.process_transaction(dispute(1, 2)).unwrap();
    engine.process_transaction(chargeback(1, 2)).unwrap();

    let rows = engine.get_accounts();
    assert_eq!(rows[0].available, 80_000); // untouched by the chargeback
    assert_eq!(rows[0].held, 0);
    assert_eq!(rows[0].total, 80_000); // total reduced by the charged amount
    assert!(rows[0].locked);
}

#[test]
fn locked_account_freezes_funds_but_not_other_chargebacks() {
    let mut engine = PaymentEngine::new();
    engine.process_transaction(deposit(1, 1, 5_000_000)).unwrap();
    engine.process_transaction(deposit(1, 2, 2_000_000)).unwrap();
    engine.process_transaction(dispute(1, 1)).unwrap();
    engine.process_transaction(dispute(1, 2)).unwrap();
    engine.process_transaction(chargeback(1, 1)).unwrap(); // locks the account

    // deposit, withdrawal, dispute and resolve now move nothing
    engine.process_transaction(deposit(1, 3, 9_000_000)).unwrap();
    engine.process_transaction(withdrawal(1, 4, 1_000_000)).unwrap();
    engine.process_transaction(dispute(1, 3)).unwrap();
    engine.process_transaction(resolve(1, 3)).unwrap();
    let rows = engine.get_accounts();
    assert_eq!(rows[0].available, 0);
    assert_eq!(rows[0].held, 20_000);
    assert!(rows[0].locked);

    // but the dispute opened before the lock can still be charged back
    engine.process_transaction(chargeback(1, 2)).unwrap();
    let rows = engine.get_accounts();
    assert_eq!(rows[0].available, 0);
    assert_eq!(rows[0].held, 0);
    assert_eq!(rows[0].total, 0);
    assert!(rows[0].locked);
}

#[test]
fn missing_amount_is_the_only_error() {
    let mut engine = PaymentEngine::new();
    let bad = TransactionRecord { tx_type: TransactionType::Deposit, client: 1, tx: 1, amount: None };
    assert_eq!(engine.process_transaction(bad), Err(EngineError::MissingAmount));
    // the erroneous record changed nothing: no account was created
    assert_eq!(engine.get_accounts().len(), 0);
}

#[test]
fn rounding_is_ties_to_even() {
    // exactly half a ten-thousandth rounds to the even neighbour
    assert_eq!(round_dp4(1_234_450), 12_344); // 1.23445 -> 1.2344
    assert_eq!(round_dp4(1_234_550), 12_346); // 1.23455 -> 1.2346
    // away from the tie it rounds to nearest
    assert_eq!(round_dp4(1_234_449), 12_344);
    assert_eq!(round_dp4(1_234_451), 12_345);
    assert_eq!(round_dp4(1_234_549), 12_345);
    assert_eq!(round_dp4(1_234_551), 12_346);
}

#[test]
fn rounding_applies_only_at_output_time() {
    // the total is rounded from the exact sum, not summed from rounded parts
    let account = Account { available: 1_234_450, held: 2_345_650, locked: false };
    let row = AccountOutput::from_account(1, &account);
    assert_eq!(row.available, 12_344); // tie, down to even
    assert_eq!(row.held, 23_456); // tie, down to even
    assert_eq!(row.total, 35_801); // exact sum 3.5801 needs no rounding at all
}
