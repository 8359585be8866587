use payments_engine::account::Account;
use payments_engine::transaction::{Transaction, TransactionType};
use payments_engine::transaction_parser::DecodeError;
use payments_engine::transaction_processor::{Rejection, TransactionProcessor};
use std::collections::HashMap;

fn tx(id: u32, of_type: TransactionType, client_id: u16, amount: i64) -> Transaction {
    Transaction { id, of_type, client_id, amount, under_dispute: false }
}

fn run(transactions: Vec<Transaction>) -> HashMap<u16, Account> {
    let records: Vec<Result<Transaction, DecodeError>> =
        transactions.into_iter().map(Ok).collect();
    let mut processor = TransactionProcessor::new();
    processor.execute(&records);
    processor.get_account_map()
}

fn accounts(list: Vec<Account>) -> HashMap<u16, Account> {
    let mut map = HashMap::new();
    for account in list {
        map.insert(account.client_id, account);
    }
    map
}

#[test]
fn test_deposit() {
    let transactions = vec![
        tx(1, TransactionType::Deposit, 1, 100_000),
        tx(2, TransactionType::Deposit, 2, 50_000),
        tx(3, TransactionType::Deposit, 1, 50_000),
    ];
    assert_eq!(
        accounts(vec![Account::new(1, 150_000, 0, false), Account::new(2, 50_000, 0, false)]),
        run(transactions)
    );
}

#[test]
fn test_withdrawal() {
    let transactions = vec![
        tx(1, TransactionType::Deposit, 1, 100_000),
        tx(2, TransactionType::Withdrawal, 1, 50_000),
    ];
    assert_eq!(accounts(vec![Account::new(1, 50_000, 0, false)]), run(transactions));
}

#[test]
fn test_over_withdrawal() {
    let transactions = vec![
        tx(1, TransactionType::Deposit, 1, 100_000),
        tx(2, TransactionType::Withdrawal, 1, 150_000),
    ];
    assert_eq!(accounts(vec![Account::new(1, 100_000, 0, false)]), run(transactions));
}

#[test]
fn test_dispute() {
    let transactions = vec![
        tx(1, TransactionType::Deposit, 1, 100_000),
        tx(1, TransactionType::Dispute, 1, 0),
    ];
    assert_eq!(accounts(vec![Account::new(1, 0, 100_000, false)]), run(transactions));
}

#[test]
fn test_dispute_disputed() {
    let transactions = vec![
        tx(1, TransactionType::Deposit, 1, 100_000),
        tx(1, TransactionType::Dispute, 1, 0),
        tx(1, TransactionType::Dispute, 1, 0),
    ];
    assert_eq!(accounts(vec![Account::new(1, 0, 100_000, false)]), run(transactions));
}

#[test]
fn test_resolve_undisputed() {
    let transactions = vec![
        tx(1, TransactionType::Deposit, 1, 100_000),
        tx(1, TransactionType::Resolve, 1, 0),
    ];
    assert_eq!(accounts(vec![Account::new(1, 100_000, 0, false)]), run(transactions));
}

#[test]
fn test_chargeback_undisputed() {
    let transactions = vec![
        tx(1, TransactionType::Deposit, 1, 100_000),
        tx(1, TransactionType::Chargeback, 1, 0),
    ];
    assert_eq!(accounts(vec![Account::new(1, 100_000, 0, false)]), run(transactions));
}

#[test]
fn test_resolve_disputed() {
    let transactions = vec![
        tx(1, TransactionType::Deposit, 1, 100_000),
        tx(1, TransactionType::Dispute, 1, 0),
        tx(1, TransactionType::Resolve, 1, 0),
    ];
    assert_eq!(accounts(vec![Account::new(1, 100_000, 0, false)]), run(transactions));
}

#[test]
fn test_chargeback_disputed() {
    let transactions = vec![
        tx(1, TransactionType::Deposit, 1, 100_000),
        tx(1, TransactionType::Dispute, 1, 0),
        tx(1, TransactionType::Chargeback, 1, 0),
    ];
    assert_eq!(accounts(vec![Account::new(1, 0, 0, true)]), run(transactions));
}

#[test]
fn test_transaction_on_frozen_account() {
    let transactions = vec![
        tx(1, TransactionType::Deposit, 1, 100_000),
        tx(1, TransactionType::Dispute, 1, 0),
        tx(1, TransactionType::Chargeback, 1, 0),
        tx(2, TransactionType::Deposit, 1, 100_000),
    ];
    assert_eq!(accounts(vec![Account::new(1, 0, 0, true)]), run(transactions));
}

#[test]
fn test_transaction_on_resolved_account() {
    let transactions = vec![
        tx(1, TransactionType::Deposit, 1, 100_000),
        tx(1, TransactionType::Dispute, 1, 0),
        tx(1, TransactionType::Resolve, 1, 0),
        tx(2, TransactionType::Deposit, 1, 100_000),
    ];
    assert_eq!(accounts(vec![Account::new(1, 200_000, 0, false)]), run(transactions));
}

#[test]
fn test_dispute_withdrawal_and_resolve() {
    let transactions = vec![
        tx(1, TransactionType::Deposit, 1, 100_000),
        tx(2, TransactionType::Deposit, 1, 1_000_000),
        tx(3, TransactionType::Withdrawal, 1, 500_000),
        tx(3, TransactionType::Dispute, 1, 0),
        tx(4, TransactionType::Withdrawal, 1, 1_100_000),
        tx(3, TransactionType::Resolve, 1, 0),
    ];
    assert_eq!(accounts(vec![Account::new(1, -500_000, 0, false)]), run(transactions));
}

#[test]
fn test_dispute_withdrawal_and_chargeback() {
    let transactions = vec![
        tx(1, TransactionType::Deposit, 1, 100_000),
        tx(2, TransactionType::Deposit, 1, 1_000_000),
        tx(3, TransactionType::Withdrawal, 1, 500_000),
        tx(3, TransactionType::Dispute, 1, 0),
        tx(4, TransactionType::Withdrawal, 1, 1_100_000),
        tx(3, TransactionType::Chargeback, 1, 0),
    ];
    assert_eq!(accounts(vec![Account::new(1, 0, 0, true)]), run(transactions));
}

#[test]
fn test_dispute_non_existent_transactions() {
    assert_eq!(HashMap::new(), run(vec![tx(1, TransactionType::Dispute, 1, 0)]));
    assert_eq!(HashMap::new(), run(vec![tx(1, TransactionType::Resolve, 1, 0)]));
    assert_eq!(HashMap::new(), run(vec![tx(1, TransactionType::Chargeback, 1, 0)]));
}

#[test]
fn test_out_of_bounds_amounts() {
    assert_eq!(
        accounts(vec![Account::new(1, 9_999_999_990_000, 0, false)]),
        run(vec![
            tx(1, TransactionType::Deposit, 1, 9_999_999_990_000),
            tx(1, TransactionType::Deposit, 1, 10_100),
        ])
    );
}

#[test]
fn worked_example_step_by_step() {
    let mut processor = TransactionProcessor::new();
    let balances = |p: &TransactionProcessor| {
        let a = p.get_account_map()[&1];
        (a.available, a.held, a.locked)
    };
    assert_eq!(processor.apply(tx(1, TransactionType::Deposit, 1, 100_000)), Ok(()));
    assert_eq!(balances(&processor), (100_000, 0, false));
    assert_eq!(processor.apply(tx(2, TransactionType::Deposit, 1, 1_000_000)), Ok(()));
    assert_eq!(processor.apply(tx(3, TransactionType::Withdrawal, 1, 500_000)), Ok(()));
    assert_eq!(balances(&processor), (600_000, 0, false));
    assert_eq!(processor.apply(tx(3, TransactionType::Dispute, 1, 0)), Ok(()));
    assert_eq!(balances(&processor), (1_100_000, -500_000, false));
    assert_eq!(processor.apply(tx(4, TransactionType::Withdrawal, 1, 1_100_000)), Ok(()));
    assert_eq!(balances(&processor), (0, -500_000, false));
    assert_eq!(processor.get_account_map()[&1].total(), -500_000);
    assert_eq!(processor.apply(tx(3, TransactionType::Resolve, 1, 0)), Ok(()));
    assert_eq!(balances(&processor), (-500_000, 0, false));
}

#[test]
fn worked_example_with_chargeback() {
    let mut processor = TransactionProcessor::new();
    for t in [
        tx(1, TransactionType::Deposit, 1, 100_000),
        tx(2, TransactionType::Deposit, 1, 1_000_000),
        tx(3, TransactionType::Withdrawal, 1, 500_000),
        tx(3, TransactionType::Dispute, 1, 0),
        tx(4, TransactionType::Withdrawal, 1, 1_100_000),
    ] {
        assert_eq!(processor.apply(t), Ok(()));
    }
    assert_eq!(processor.apply(tx(3, TransactionType::Chargeback, 1, 0)), Ok(()));
    assert_eq!(processor.get_account_map()[&1], Account::new(1, 0, 0, true));
}

#[test]
fn second_deposit_over_the_bound_is_rejected() {
    let mut processor = TransactionProcessor::new();
    assert_eq!(processor.apply(tx(1, TransactionType::Deposit, 1, 9_999_999_990_000)), Ok(()));
    assert_eq!(
        processor.apply(tx(2, TransactionType::Deposit, 1, 10_100)),
        Err(Rejection::OutOfBounds)
    );
    assert_eq!(processor.get_account_map()[&1].available, 9_999_999_990_000);
    assert_eq!(processor.apply(tx(3, TransactionType::Deposit, 1, 10_000)), Ok(()));
    assert_eq!(processor.get_account_map()[&1].available, 10_000_000_000_000);
}

#[test]
fn dispute_then_resolve_restores_balances() {
    let mut processor = TransactionProcessor::new();
    processor.apply(tx(1, TransactionType::Deposit, 7, 123_456)).unwrap();
    processor.apply(tx(2, TransactionType::Withdrawal, 7, 23_456)).unwrap();
    let before = processor.get_account_map();
    processor.apply(tx(2, TransactionType::Dispute, 7, 0)).unwrap();
    assert_ne!(before, processor.get_account_map());
    processor.apply(tx(2, TransactionType::Resolve, 7, 0)).unwrap();
    assert_eq!(before, processor.get_account_map());
}

#[test]
fn locked_account_rejects_everything() {
    let mut processor = TransactionProcessor::new();
    processor.apply(tx(1, TransactionType::Deposit, 1, 100_000)).unwrap();
    processor.apply(tx(2, TransactionType::Deposit, 1, 50_000)).unwrap();
    processor.apply(tx(1, TransactionType::Dispute, 1, 0)).unwrap();
    processor.apply(tx(1, TransactionType::Chargeback, 1, 0)).unwrap();
    let frozen = processor.get_account_map();
    assert_eq!(frozen[&1], Account::new(1, 50_000, 0, true));
    for t in [
        tx(3, TransactionType::Deposit, 1, 10_000),
        tx(4, TransactionType::Withdrawal, 1, 10_000),
        tx(2, TransactionType::Dispute, 1, 0),
        tx(2, TransactionType::Resolve, 1, 0),
        tx(2, TransactionType::Chargeback, 1, 0),
    ] {
        assert_eq!(processor.apply(t), Err(Rejection::AccountLocked));
        assert_eq!(frozen, processor.get_account_map());
    }
}

#[test]
fn rejected_disputes_change_nothing() {
    let mut processor = TransactionProcessor::new();
    processor.apply(tx(1, TransactionType::Deposit, 1, 100_000)).unwrap();
    let before = processor.get_account_map();
    assert_eq!(processor.apply(tx(9, TransactionType::Dispute, 2, 0)), Err(Rejection::NotDisputable));
    assert_eq!(processor.apply(tx(1, TransactionType::Dispute, 2, 0)), Err(Rejection::ClientMismatch));
    assert_eq!(before, processor.get_account_map());
    processor.apply(tx(1, TransactionType::Dispute, 1, 0)).unwrap();
    let disputed = processor.get_account_map();
    assert_eq!(processor.apply(tx(1, TransactionType::Dispute, 1, 0)), Err(Rejection::NotDisputable));
    assert_eq!(disputed, processor.get_account_map());
    assert_eq!(processor.apply(tx(5, TransactionType::Resolve, 1, 0)), Err(Rejection::NotUnderDispute));
    assert_eq!(processor.apply(tx(1, TransactionType::Chargeback, 3, 0)), Err(Rejection::ClientMismatch));
    assert_eq!(disputed, processor.get_account_map());
}

#[test]
fn overdraft_is_rejected_and_creates_only_an_empty_account() {
    let mut processor = TransactionProcessor::new();
    processor.apply(tx(1, TransactionType::Deposit, 1, 100_000)).unwrap();
    assert_eq!(
        processor.apply(tx(2, TransactionType::Withdrawal, 1, 100_001)),
        Err(Rejection::InsufficientFunds)
    );
    assert_eq!(processor.get_account_map()[&1], Account::new(1, 100_000, 0, false));
    assert_eq!(
        processor.apply(tx(3, TransactionType::Withdrawal, 2, 10_000)),
        Err(Rejection::InsufficientFunds)
    );
    assert_eq!(processor.get_account_map()[&2], Account::new_with_client(2));
}

#[test]
fn decode_failures_are_skipped() {
    let records = vec![
        Ok(tx(1, TransactionType::Deposit, 1, 100_000)),
        Err(DecodeError::AmountOutOfBounds),
        Ok(tx(2, TransactionType::Withdrawal, 1, 40_000)),
    ];
    let mut processor = TransactionProcessor::new();
    processor.execute(&records);
    assert_eq!(processor.get_account_map(), accounts(vec![Account::new(1, 60_000, 0, false)]));
}

#[test]
fn total_is_available_plus_held() {
    assert_eq!(Account::new(1, 1_100_000, -500_000, false).total(), 600_000);
    assert_eq!(Account::new(1, i64::MAX, i64::MAX, false).total(), 2 * (i64::MAX as i128));
}
