//! Processing whole batches of transaction records.

use tx_engine::amount::Amount;
use tx_engine::model::{ClientId, ClientState, Transaction, TransactionId, TransactionType};
use tx_engine::service::TransactionProcessor;

fn record(
    kind: TransactionType,
    client: u16,
    tx: u32,
    amount: Option<i64>,
) -> Transaction {
    Transaction {
        kind,
        client_id: ClientId::new(client),
        transaction_id: TransactionId::new(tx),
        amount: amount.map(Amount::from_whole),
    }
}

fn run(transactions: Vec<Transaction>) -> (Vec<ClientState>, TransactionProcessor) {
    let mut processor = TransactionProcessor::new();
    processor.process_transactions(&transactions);
    let states = processor.export_client_states();
    (states, processor)
}

#[test]
fn should_apply_transactions_for_single_client() {
    let transactions = vec![
        record(TransactionType::Deposit, 1, 1, Some(2)),
        record(TransactionType::Withdrawal, 1, 2, Some(1)),
        record(TransactionType::Dispute, 1, 1, None),
        record(TransactionType::Resolve, 1, 1, None),
        record(TransactionType::Dispute, 1, 1, None),
        record(TransactionType::Chargeback, 1, 1, None),
    ];

    let (client_states, _processor) = run(transactions);

    assert_eq!(client_states.len(), 1);
    assert_eq!(client_states[0].client_id(), ClientId::new(1));
    assert_eq!(client_states[0].total(), Amount::from_whole(-1));
    assert!(client_states[0].held().is_zero());
    assert!(client_states[0].locked());
}

#[test]
fn should_apply_transactions_for_multiple_clients() {
    let transactions = vec![
        record(TransactionType::Deposit, 1, 1, Some(2)),
        record(TransactionType::Deposit, 2, 1, Some(3)),
        record(TransactionType::Withdrawal, 1, 2, Some(1)),
        record(TransactionType::Dispute, 2, 1, None),
    ];

    let (client_states, _processor) = run(transactions);

    assert_eq!(client_states.len(), 2);

    let client_1 = client_states
        .iter()
        .find(|client| client.client_id() == ClientId::new(1))
        .unwrap();

    let client_2 = client_states
        .iter()
        .find(|client| client.client_id() == ClientId::new(2))
        .unwrap();

    assert_eq!(client_1.total(), Amount::from_whole(1));
    assert!(client_1.held().is_zero());
    assert!(!client_1.locked());

    assert_eq!(client_2.total(), Amount::from_whole(3));
    assert_eq!(client_2.held(), Amount::from_whole(3));
    assert!(!client_2.locked());
}

#[test]
fn should_ignore_invalid_disputes() {
    let transactions = vec![
        record(TransactionType::Deposit, 1, 1, Some(2)),
        record(TransactionType::Dispute, 1, 2, None),
    ];

    let (client_states, processor) = run(transactions);

    assert_eq!(client_states.len(), 1);
    assert_eq!(client_states[0].client_id(), ClientId::new(1));
    assert_eq!(client_states[0].total(), Amount::from_whole(2));
    assert!(client_states[0].held().is_zero());
    assert!(!client_states[0].locked());
    // an unknown reference is not even an error
    assert!(processor.transaction_errors().is_empty());
}

#[test]
fn should_not_dispute_withdrawal() {
    let transactions = vec![
        record(TransactionType::Deposit, 1, 1, Some(2)),
        record(TransactionType::Withdrawal, 1, 2, Some(2)),
        record(TransactionType::Dispute, 1, 2, None),
    ];

    let (client_states, _processor) = run(transactions);

    assert_eq!(client_states.len(), 1);
    assert_eq!(client_states[0].client_id(), ClientId::new(1));
    assert!(client_states[0].total().is_zero());
    assert!(client_states[0].held().is_zero());
    assert!(!client_states[0].locked());
}
