use ledger::engine::{Engine, ReportRow};
use ledger::user::{ErrorKind, TransactionRequset, TransactionType};
use std::collections::HashMap;

fn amt(x: f64) -> u64 {
    (x * 10_000.0).round() as u64
}

fn bal(x: f64) -> i128 {
    (x * 10_000.0).round() as i128
}

fn request(kind: TransactionType, client: u16, tx: u32, amount: Option<f64>) -> TransactionRequset {
    TransactionRequset { kind, client, tx, amount: amount.map(amt) }
}

#[test]
fn test_process_tx() {
    let mut engine = Engine { users: HashMap::new() };

    let mut tx = TransactionRequset {
        kind: TransactionType::Deposit,
        client: 1,
        tx: 1,
        amount: Some(amt(10.0)),
    };

    assert!(engine.process_tx(tx.clone()).is_ok());
    tx.tx = 2;
    assert!(engine.process_tx(tx.clone()).is_ok());
    tx.client = 2;
    tx.tx = 3;
    assert!(engine.process_tx(tx.clone()).is_ok());
    assert_eq!(engine.users.len(), 2);

    tx.client = 1;
    tx.tx = 4;
    tx.kind = TransactionType::Withdrawal;
    tx.amount = Some(amt(5.0));
    assert!(engine.process_tx(tx.clone()).is_ok());
    assert_eq!(engine.users.get(&1).unwrap().account.total, bal(15.0));
    assert_eq!(engine.users.get(&1).unwrap().account.avalible(), bal(15.0));

    // Not in despute
    tx.tx = 1;
    tx.kind = TransactionType::Resolve;
    assert!(engine.process_tx(tx.clone()).is_err());

    tx.kind = TransactionType::Dispute;
    assert!(engine.process_tx(tx.clone()).is_ok());
    assert_eq!(engine.users.get(&1).unwrap().account.total, bal(15.0));
    assert_eq!(engine.users.get(&1).unwrap().account.avalible(), bal(5.0));

    tx.kind = TransactionType::Resolve;
    assert!(engine.process_tx(tx.clone()).is_ok());
    assert_eq!(engine.users.get(&1).unwrap().account.total, bal(15.0));
    assert_eq!(engine.users.get(&1).unwrap().account.avalible(), bal(15.0));

    tx.kind = TransactionType::Dispute;
    assert!(engine.process_tx(tx.clone()).is_ok());
    assert_eq!(engine.users.get(&1).unwrap().account.total, bal(15.0));
    assert_eq!(engine.users.get(&1).unwrap().account.avalible(), bal(5.0));

    tx.kind = TransactionType::Chargeback;
    assert!(engine.process_tx(tx.clone()).is_ok());
    assert_eq!(engine.users.get(&1).unwrap().account.total, bal(5.0));
    assert_eq!(engine.users.get(&1).unwrap().account.avalible(), bal(5.0));

    // User locked
    tx.kind = TransactionType::Deposit;
    assert!(engine.process_tx(tx.clone()).is_err());
}

#[test]
fn first_mention_opens_the_account_even_when_rejected() {
    let mut engine = Engine::new();
    assert!(engine.users.is_empty());
    assert_eq!(
        engine.process_tx(request(TransactionType::Dispute, 9, 1, None)),
        Err(ErrorKind::UnknownTransaction { client: 9, tx: 1 })
    );
    let user = engine.users.get(&9).unwrap();
    assert_eq!(user.id, 9);
    assert_eq!(user.account.total, 0);
    assert_eq!(user.account.held, 0);
    assert!(user.tx_history.is_empty());
    assert!(!user.frozen);
}

#[test]
fn ids_are_per_account() {
    let mut engine = Engine::new();
    assert_eq!(engine.process_tx(request(TransactionType::Deposit, 1, 1, Some(1.0))), Ok(()));
    assert_eq!(engine.process_tx(request(TransactionType::Deposit, 2, 1, Some(2.0))), Ok(()));
    assert_eq!(
        engine.process_tx(request(TransactionType::Deposit, 1, 1, Some(1.0))),
        Err(ErrorKind::DuplicateTransactionId { client: 1, tx: 1 })
    );
    assert_eq!(engine.users.get(&1).unwrap().account.total, bal(1.0));
    assert_eq!(engine.users.get(&2).unwrap().account.total, bal(2.0));
}

#[test]
fn two_clients_scenario() {
    let mut engine = Engine::new();
    let answers = engine.process_all(&vec![
        request(TransactionType::Deposit, 1, 1, Some(1.0)),
        request(TransactionType::Deposit, 2, 2, Some(2.0)),
        request(TransactionType::Deposit, 1, 3, Some(2.0)),
        request(TransactionType::Withdrawal, 1, 4, Some(1.5)),
        request(TransactionType::Withdrawal, 2, 5, Some(3.0)),
    ]);
    assert_eq!(
        answers,
        vec![
            Ok(()),
            Ok(()),
            Ok(()),
            Ok(()),
            Err(ErrorKind::InsufficientFunds { client: 2, tx: 5 })
        ]
    );
    assert_eq!(
        engine.report(),
        vec![
            ReportRow { client: 1, available: bal(1.5), held: 0, total: bal(1.5), locked: false },
            ReportRow { client: 2, available: bal(2.0), held: 0, total: bal(2.0), locked: false },
        ]
    );
}

#[test]
fn chargeback_scenario() {
    let mut engine = Engine::new();
    let answers = engine.process_all(&vec![
        request(TransactionType::Deposit, 1, 1, Some(10.0)),
        request(TransactionType::Deposit, 1, 2, Some(5.0)),
        request(TransactionType::Dispute, 1, 1, None),
    ]);
    assert_eq!(answers, vec![Ok(()), Ok(()), Ok(())]);
    assert_eq!(
        engine.report(),
        vec![ReportRow {
            client: 1,
            available: bal(5.0),
            held: bal(10.0),
            total: bal(15.0),
            locked: false
        }]
    );
    assert_eq!(engine.process_tx(request(TransactionType::Chargeback, 1, 1, None)), Ok(()));
    assert_eq!(
        engine.report(),
        vec![ReportRow { client: 1, available: bal(5.0), held: 0, total: bal(5.0), locked: true }]
    );
    let answers = engine.process_all(&vec![
        request(TransactionType::Deposit, 1, 3, Some(1.0)),
        request(TransactionType::Withdrawal, 1, 4, Some(1.0)),
        request(TransactionType::Resolve, 1, 1, None),
    ]);
    assert_eq!(
        answers,
        vec![
            Err(ErrorKind::AccountFrozen { client: 1, tx: 3 }),
            Err(ErrorKind::AccountFrozen { client: 1, tx: 4 }),
            Err(ErrorKind::AccountFrozen { client: 1, tx: 1 }),
        ]
    );
}

#[test]
fn report_is_by_ascending_client() {
    let mut engine = Engine::new();
    assert!(engine.report().is_empty());
    assert_eq!(engine.process_tx(request(TransactionType::Deposit, 65535, 1, Some(1.0))), Ok(()));
    assert_eq!(engine.process_tx(request(TransactionType::Deposit, 0, 2, Some(2.0))), Ok(()));
    assert_eq!(engine.process_tx(request(TransactionType::Deposit, 300, 3, Some(3.0))), Ok(()));
    let clients: Vec<u16> = engine.report().iter().map(|row| row.client).collect();
    assert_eq!(clients, vec![0, 300, 65535]);
}
