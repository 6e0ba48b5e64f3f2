//! Concrete checks of the engine's laws and edge cases: the balance-sheet
//! invariant, rejection of negative amounts, permanence of the lock, the
//! dispute/resolve round trip, the dispute lifecycle, and the collected
//! error for each failure kind.

use tx_engine::amount::{Amount, DecimalConversionError};
use tx_engine::model::{
    ClientId, Transaction, TransactionError, TransactionId, TransactionType,
};
use tx_engine::service::{ProcessingError, TransactionProcessor};

fn record(
    kind: TransactionType,
    client: u16,
    tx: u32,
    amount: Option<i64>,
) -> Transaction {
    Transaction {
        kind,
        client_id: ClientId::new(client),
        transaction_id: TransactionId::new(tx),
        amount: amount.map(Amount::from_whole),
    }
}

fn record_units(kind: TransactionType, client: u16, tx: u32, units: i128) -> Transaction {
    Transaction {
        kind,
        client_id: ClientId::new(client),
        transaction_id: TransactionId::new(tx),
        amount: Some(Amount::from_units(units)),
    }
}

#[test]
fn total_is_available_plus_held_in_every_snapshot() {
    let transactions = vec![
        record(TransactionType::Deposit, 1, 1, Some(5)),
        record(TransactionType::Deposit, 2, 2, Some(7)),
        record(TransactionType::Dispute, 1, 1, None),
        record(TransactionType::Withdrawal, 2, 3, Some(4)),
        record(TransactionType::Dispute, 2, 2, None),
        record(TransactionType::Chargeback, 2, 2, None),
    ];

    let mut processor = TransactionProcessor::new();
    processor.process_transactions(&transactions);

    for state in processor.export_client_states() {
        assert_eq!(
            state.total().units(),
            state.available().units() + state.held().units()
        );
        assert!(state.held().units() >= 0);
    }
}

#[test]
fn negative_amount_is_rejected_and_leaves_state_unchanged() {
    let transactions = vec![
        record(TransactionType::Deposit, 1, 1, Some(5)),
        record(TransactionType::Deposit, 1, 2, Some(-3)),
        record(TransactionType::Withdrawal, 1, 3, Some(-2)),
    ];

    let mut processor = TransactionProcessor::new();
    processor.process_transactions(&transactions);

    let states = processor.export_client_states();
    assert_eq!(states.len(), 1);
    assert_eq!(states[0].available(), Amount::from_whole(5));
    assert!(states[0].held().is_zero());
    assert_eq!(states[0].total(), Amount::from_whole(5));

    let errors = processor.transaction_errors();
    assert_eq!(errors.len(), 2);
    assert_eq!(
        errors[0],
        ProcessingError::TransactionError {
            transaction_id: TransactionId::new(2),
            error: TransactionError::InvalidAmount(Amount::from_whole(-3)),
        }
    );
    assert_eq!(
        errors[1],
        ProcessingError::TransactionError {
            transaction_id: TransactionId::new(3),
            error: TransactionError::InvalidAmount(Amount::from_whole(-2)),
        }
    );
}

#[test]
fn locked_account_stays_locked_and_still_accepts_deposits() {
    let transactions = vec![
        record(TransactionType::Deposit, 1, 1, Some(2)),
        record(TransactionType::Dispute, 1, 1, None),
        record(TransactionType::Chargeback, 1, 1, None),
        // the account is now locked: withdrawals fail, deposits still land
        record(TransactionType::Withdrawal, 1, 2, Some(1)),
        record(TransactionType::Deposit, 1, 3, Some(4)),
    ];

    let mut processor = TransactionProcessor::new();
    processor.process_transactions(&transactions);

    let states = processor.export_client_states();
    assert_eq!(states.len(), 1);
    assert!(states[0].locked());
    assert_eq!(states[0].available(), Amount::from_whole(4));
    assert!(states[0].held().is_zero());
    assert_eq!(states[0].total(), Amount::from_whole(4));

    let errors = processor.transaction_errors();
    assert_eq!(errors.len(), 1);
    assert_eq!(
        errors[0],
        ProcessingError::TransactionError {
            transaction_id: TransactionId::new(2),
            error: TransactionError::AccountLocked,
        }
    );
}

#[test]
fn dispute_then_resolve_restores_the_balances_exactly() {
    let transactions = vec![
        record(TransactionType::Deposit, 1, 1, Some(2)),
        record(TransactionType::Withdrawal, 1, 2, Some(1)),
        record(TransactionType::Dispute, 1, 1, None),
        record(TransactionType::Resolve, 1, 1, None),
    ];

    let mut processor = TransactionProcessor::new();
    processor.process_transactions(&transactions);

    let states = processor.export_client_states();
    assert_eq!(states.len(), 1);
    assert_eq!(states[0].available(), Amount::from_whole(1));
    assert!(states[0].held().is_zero());
    assert_eq!(states[0].total(), Amount::from_whole(1));
    assert!(!states[0].locked());
    assert!(processor.transaction_errors().is_empty());
}

#[test]
fn resolved_transaction_can_be_disputed_again() {
    let transactions = vec![
        record(TransactionType::Deposit, 1, 1, Some(2)),
        record(TransactionType::Dispute, 1, 1, None),
        record(TransactionType::Resolve, 1, 1, None),
        record(TransactionType::Dispute, 1, 1, None),
    ];

    let mut processor = TransactionProcessor::new();
    processor.process_transactions(&transactions);

    let states = processor.export_client_states();
    assert_eq!(states.len(), 1);
    assert!(states[0].available().is_zero());
    assert_eq!(states[0].held(), Amount::from_whole(2));
    assert_eq!(states[0].total(), Amount::from_whole(2));
    assert!(processor.transaction_errors().is_empty());
}

#[test]
fn dispute_of_disputed_transaction_fails() {
    let transactions = vec![
        record(TransactionType::Deposit, 1, 1, Some(2)),
        record(TransactionType::Dispute, 1, 1, None),
        record(TransactionType::Dispute, 1, 1, None),
    ];

    let mut processor = TransactionProcessor::new();
    processor.process_transactions(&transactions);

    let errors = processor.transaction_errors();
    assert_eq!(errors.len(), 1);
    assert_eq!(errors[0], ProcessingError::CannotDispute(TransactionId::new(1)));

    let states = processor.export_client_states();
    assert!(states[0].available().is_zero());
    assert_eq!(states[0].held(), Amount::from_whole(2));
}

#[test]
fn resolve_of_undisputed_transaction_fails() {
    let transactions = vec![
        record(TransactionType::Deposit, 1, 1, Some(2)),
        record(TransactionType::Resolve, 1, 1, None),
    ];

    let mut processor = TransactionProcessor::new();
    processor.process_transactions(&transactions);

    let errors = processor.transaction_errors();
    assert_eq!(errors.len(), 1);
    assert_eq!(
        errors[0],
        ProcessingError::CannotResolveOrChargeBack(TransactionId::new(1))
    );
}

#[test]
fn charged_back_transaction_accepts_no_further_lifecycle_step() {
    let transactions = vec![
        record(TransactionType::Deposit, 1, 1, Some(2)),
        record(TransactionType::Dispute, 1, 1, None),
        record(TransactionType::Chargeback, 1, 1, None),
        record(TransactionType::Dispute, 1, 1, None),
        record(TransactionType::Resolve, 1, 1, None),
        record(TransactionType::Chargeback, 1, 1, None),
    ];

    let mut processor = TransactionProcessor::new();
    processor.process_transactions(&transactions);

    let errors = processor.transaction_errors();
    assert_eq!(errors.len(), 3);
    assert_eq!(errors[0], ProcessingError::CannotDispute(TransactionId::new(1)));
    assert_eq!(
        errors[1],
        ProcessingError::CannotResolveOrChargeBack(TransactionId::new(1))
    );
    assert_eq!(
        errors[2],
        ProcessingError::CannotResolveOrChargeBack(TransactionId::new(1))
    );

    let states = processor.export_client_states();
    assert!(states[0].available().is_zero());
    assert!(states[0].held().is_zero());
    assert!(states[0].total().is_zero());
    assert!(states[0].locked());
}

#[test]
fn missing_amount_is_collected_and_the_client_still_appears() {
    let transactions = vec![record(TransactionType::Deposit, 9, 4, None)];

    let mut processor = TransactionProcessor::new();
    processor.process_transactions(&transactions);

    let errors = processor.transaction_errors();
    assert_eq!(errors.len(), 1);
    assert_eq!(errors[0], ProcessingError::MissingAmount(TransactionId::new(4)));

    // the entry is created before validation, so the client is exported
    let states = processor.export_client_states();
    assert_eq!(states.len(), 1);
    assert_eq!(states[0].client_id(), ClientId::new(9));
    assert!(states[0].total().is_zero());
    assert!(!states[0].locked());
}

#[test]
fn reused_transaction_id_overwrites_the_record() {
    let transactions = vec![
        record(TransactionType::Deposit, 1, 1, Some(2)),
        record(TransactionType::Deposit, 1, 1, Some(3)),
        record(TransactionType::Dispute, 1, 1, None),
    ];

    let mut processor = TransactionProcessor::new();
    processor.process_transactions(&transactions);

    let states = processor.export_client_states();
    assert_eq!(states[0].held(), Amount::from_whole(3));
    assert_eq!(states[0].available(), Amount::from_whole(2));
    assert_eq!(states[0].total(), Amount::from_whole(5));
}

#[test]
fn dispute_after_resolve_then_chargeback_goes_negative() {
    let transactions = vec![
        record(TransactionType::Deposit, 1, 1, Some(2)),
        record(TransactionType::Withdrawal, 1, 2, Some(1)),
        record(TransactionType::Dispute, 1, 1, None),
        record(TransactionType::Resolve, 1, 1, None),
        record(TransactionType::Dispute, 1, 1, None),
        record(TransactionType::Chargeback, 1, 1, None),
    ];

    let mut processor = TransactionProcessor::new();
    processor.process_transactions(&transactions);

    let states = processor.export_client_states();
    assert_eq!(states.len(), 1);
    assert_eq!(states[0].available(), Amount::from_whole(-1));
    assert!(states[0].held().is_zero());
    assert_eq!(states[0].total(), Amount::from_whole(-1));
    assert!(states[0].locked());
}

#[test]
fn checked_processing_accepts_a_moderate_batch() {
    let transactions = vec![
        record(TransactionType::Deposit, 1, 1, Some(2)),
        record(TransactionType::Withdrawal, 1, 2, Some(1)),
    ];

    let mut processor = TransactionProcessor::new();
    assert!(processor.process_transactions_checked(&transactions));

    let states = processor.export_client_states();
    assert_eq!(states[0].total(), Amount::from_whole(1));
}

#[test]
fn checked_processing_refuses_a_batch_beyond_the_range() {
    let transactions = vec![
        record_units(TransactionType::Deposit, 1, 1, i128::MAX),
        record_units(TransactionType::Deposit, 1, 2, i128::MAX),
    ];

    let mut processor = TransactionProcessor::new();
    assert!(!processor.process_transactions_checked(&transactions));

    // the batch was refused whole: nothing was processed
    assert!(processor.export_client_states().is_empty());
    assert!(processor.transaction_errors().is_empty());
}

#[test]
fn later_batches_see_the_ledger_left_by_earlier_ones() {
    let first = vec![record(TransactionType::Deposit, 1, 1, Some(2))];
    let second = vec![
        record(TransactionType::Dispute, 1, 1, None),
        record(TransactionType::Chargeback, 1, 1, None),
    ];

    let mut processor = TransactionProcessor::new();
    processor.process_transactions(&first);
    processor.process_transactions(&second);

    let states = processor.export_client_states();
    assert_eq!(states.len(), 1);
    assert!(states[0].total().is_zero());
    assert!(states[0].locked());
    assert!(processor.transaction_errors().is_empty());
}

#[test]
fn decimal_mantissa_and_scale_convert_exactly_or_fail_loudly() {
    // 15 * 10^-1 == 1.5 == 15000 ten-thousandths
    assert_eq!(Amount::from_decimal(15, 1), Ok(Amount::from_units(15000)));
    // 3 * 10^0 == 3.0000
    assert_eq!(Amount::from_decimal(3, 0), Ok(Amount::from_whole(3)));
    // -25 * 10^-1 == -2.5
    assert_eq!(Amount::from_decimal(-25, 1), Ok(Amount::from_units(-25000)));
    // 123450 * 10^-5 == 1.2345, exactly representable
    assert_eq!(Amount::from_decimal(123450, 5), Ok(Amount::from_units(12345)));
    // 123456 * 10^-5 == 1.23456 carries a fifth decimal place
    assert_eq!(
        Amount::from_decimal(123456, 5),
        Err(DecimalConversionError::ExcessPrecision)
    );
    // a tiny value far below the fourth decimal place
    assert_eq!(
        Amount::from_decimal(7, 30),
        Err(DecimalConversionError::ExcessPrecision)
    );
    // zero is exact at any scale
    assert_eq!(Amount::from_decimal(0, 28), Ok(Amount::zero()));
    // the scaled-up count no longer fits 128 bits
    assert_eq!(
        Amount::from_decimal(i128::MAX, 0),
        Err(DecimalConversionError::OutOfRange)
    );
}

#[test]
fn amounts_render_with_exactly_four_decimal_digits() {
    assert_eq!(Amount::from_whole(3).to_fixed_bytes(), b"3.0000".to_vec());
    assert_eq!(Amount::zero().to_fixed_bytes(), b"0.0000".to_vec());
    assert_eq!(Amount::from_units(-10001).to_fixed_bytes(), b"-1.0001".to_vec());
    assert_eq!(Amount::from_units(-1).to_fixed_bytes(), b"-0.0001".to_vec());
    assert_eq!(Amount::from_units(123456789).to_fixed_bytes(), b"12345.6789".to_vec());
}

#[test]
fn empty_batch_yields_no_snapshots_and_no_errors() {
    let mut processor = TransactionProcessor::new();
    processor.process_transactions(&Vec::new());

    assert!(processor.export_client_states().is_empty());
    assert!(processor.transaction_errors().is_empty());
}

#[test]
fn snapshots_come_in_order_of_first_reference() {
    let transactions = vec![
        record(TransactionType::Deposit, 7, 1, Some(1)),
        record(TransactionType::Deposit, 3, 2, Some(1)),
        record(TransactionType::Deposit, 7, 3, Some(1)),
        record(TransactionType::Deposit, 5, 4, Some(1)),
    ];

    let mut processor = TransactionProcessor::new();
    processor.process_transactions(&transactions);

    let states = processor.export_client_states();
    let ids: Vec<u16> = states.iter().map(|s| s.client_id().0).collect();
    assert_eq!(ids, vec![7, 3, 5]);
}

#[test]
fn amounts_keep_four_decimal_digits_exactly() {
    let transactions = vec![
        record_units(TransactionType::Deposit, 1, 1, 15000),
        record_units(TransactionType::Withdrawal, 1, 2, 1),
    ];

    let mut processor = TransactionProcessor::new();
    processor.process_transactions(&transactions);

    let states = processor.export_client_states();
    // 1.5000 - 0.0001 == 1.4999, exactly
    assert_eq!(states[0].available(), Amount::from_units(14999));
    assert_eq!(states[0].total(), Amount::from_units(14999));
}
