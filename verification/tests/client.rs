use account_ledger::client::{Client, LedgerEntry, TxState, REPORT_HEADER};
use account_ledger::error::Error;
use account_ledger::operation::Operation;
use account_ledger::query::Query;
use account_ledger::AccountOwner;

#[test]
fn not_under_dispute() {
    let mut client = Client::new(1);

    client.deposit(1, 100).unwrap();
    assert!(client.resolve(1).is_err());
}

#[test]
fn dispute() {
    let mut client = Client::new(1);

    client.deposit(1, 100).unwrap();
    client.withdraw(2, 50).unwrap();
    client.dispute(2).unwrap();
    assert!(client.resolve(2).is_ok());
    assert!(client.dispute(2).is_err());
}

#[test]
fn new_client_has_its_id_and_nothing_else() {
    let client = Client::new(7);
    assert_eq!(client.id(), 7);
    assert_eq!(client.account().available(), 0);
    assert_eq!(client.account().held(), 0);
    assert!(!client.account().locked());
    assert_eq!(client.entry(1), None);
}

#[test]
fn deposit_and_withdrawal_are_recorded_as_active() {
    let mut client = Client::new(1);
    assert!(matches!(client.deposit(1, 100), Ok(0)));
    assert!(matches!(client.withdraw(2, 40), Ok(100)));
    assert_eq!(client.entry(1), Some(LedgerEntry { amount: 100, state: TxState::Active }));
    assert_eq!(client.entry(2), Some(LedgerEntry { amount: 40, state: TxState::Active }));
    assert_eq!(client.entry(3), None);
    assert_eq!(client.account().available(), 60);
}

#[test]
fn a_transaction_id_is_used_once() {
    let mut client = Client::new(1);
    client.deposit(1, 100).unwrap();
    client.withdraw(2, 10).unwrap();

    assert!(matches!(client.deposit(1, 5), Err(Error::DuplicatedTx)));
    assert!(matches!(client.withdraw(1, 5), Err(Error::DuplicatedTx)));
    assert!(matches!(client.deposit(2, 5), Err(Error::DuplicatedTx)));
    assert!(matches!(client.withdraw(2, 5), Err(Error::DuplicatedTx)));

    // nothing was overwritten and no funds moved
    assert_eq!(client.entry(1), Some(LedgerEntry { amount: 100, state: TxState::Active }));
    assert_eq!(client.entry(2), Some(LedgerEntry { amount: 10, state: TxState::Active }));
    assert_eq!(client.account().available(), 90);

    // still so after the transaction went through a dispute
    client.dispute(1).unwrap_err();
    client.dispute(2).unwrap();
    client.resolve(2).unwrap();
    assert!(matches!(client.deposit(2, 5), Err(Error::DuplicatedTx)));
    assert!(matches!(client.withdraw(1, 5), Err(Error::DuplicatedTx)));
}

#[test]
fn a_refused_withdrawal_keeps_its_id() {
    let mut client = Client::new(1);
    assert!(matches!(client.withdraw(1, 20), Err(Error::NotEnoughFunds)));
    assert_eq!(client.entry(1), Some(LedgerEntry { amount: 20, state: TxState::Active }));
    assert_eq!(client.account().available(), 0);
    assert!(matches!(client.deposit(1, 20), Err(Error::DuplicatedTx)));
}

#[test]
fn unknown_transaction_is_not_found() {
    let mut client = Client::new(1);
    client.deposit(1, 100).unwrap();
    assert!(matches!(client.dispute(9), Err(Error::NoTxFound)));
    assert!(matches!(client.resolve(9), Err(Error::NoTxFound)));
    assert!(matches!(client.chargeback(9), Err(Error::NoTxFound)));
    assert_eq!(client.account().available(), 100);
    assert_eq!(client.account().held(), 0);
}

#[test]
fn resolve_and_chargeback_need_an_open_dispute() {
    let mut client = Client::new(1);
    client.deposit(1, 100).unwrap();
    assert!(matches!(client.resolve(1), Err(Error::NotUnderDispute)));
    assert!(matches!(client.chargeback(1), Err(Error::NotUnderDispute)));
    assert_eq!(client.entry(1), Some(LedgerEntry { amount: 100, state: TxState::Active }));
    assert!(!client.account().locked());
}

#[test]
fn a_resolved_transaction_is_retired() {
    let mut client = Client::new(1);
    client.deposit(1, 100).unwrap();
    assert!(matches!(client.dispute(1), Ok(100)));
    assert_eq!(client.entry(1), Some(LedgerEntry { amount: 100, state: TxState::Disputed }));
    assert!(matches!(client.dispute(1), Err(Error::AlreadyDisputed)));

    assert!(matches!(client.resolve(1), Ok(0)));
    assert_eq!(client.entry(1), Some(LedgerEntry { amount: 100, state: TxState::Retired }));

    assert!(matches!(client.resolve(1), Err(Error::NotUnderDispute)));
    assert!(matches!(client.chargeback(1), Err(Error::NotUnderDispute)));
    assert!(matches!(client.dispute(1), Err(Error::AlreadyDisputed)));
    assert_eq!(client.account().available(), 100);
    assert_eq!(client.account().held(), 0);
    assert!(!client.account().locked());
}

#[test]
fn a_charged_back_transaction_is_retired_and_the_account_locked() {
    let mut client = Client::new(1);
    client.deposit(1, 10).unwrap();
    client.deposit(2, 5).unwrap();
    client.dispute(2).unwrap();
    assert!(matches!(client.chargeback(2), Ok(10)));
    assert_eq!(client.entry(2), Some(LedgerEntry { amount: 5, state: TxState::Retired }));
    assert_eq!(client.account().available(), 10);
    assert_eq!(client.account().held(), 0);
    assert!(client.account().locked());

    assert!(matches!(client.chargeback(2), Err(Error::NotUnderDispute)));
    assert!(matches!(client.resolve(2), Err(Error::NotUnderDispute)));
    assert!(matches!(client.deposit(3, 20), Err(Error::AccountIsLocked)));
    assert!(matches!(client.withdraw(4, 1), Err(Error::AccountIsLocked)));
    assert!(matches!(client.dispute(1), Err(Error::AccountIsLocked)));
    assert_eq!(client.account().available(), 10);
}

#[test]
fn a_locked_account_keeps_an_open_dispute_open() {
    let mut client = Client::new(1);
    client.deposit(1, 10).unwrap();
    client.deposit(2, 5).unwrap();
    client.dispute(1).unwrap();
    client.dispute(2).unwrap();
    client.chargeback(2).unwrap();

    assert!(matches!(client.resolve(1), Err(Error::AccountIsLocked)));
    assert!(matches!(client.chargeback(1), Err(Error::AccountIsLocked)));
    assert_eq!(client.entry(1), Some(LedgerEntry { amount: 10, state: TxState::Disputed }));
    assert_eq!(client.account().held(), 10);
}

#[test]
fn a_dispute_that_the_account_refuses_still_marks_the_transaction() {
    let mut client = Client::new(1);
    client.deposit(1, 100).unwrap();
    client.withdraw(2, 80).unwrap();
    assert!(matches!(client.dispute(1), Err(Error::NotEnoughFunds)));
    assert_eq!(client.entry(1), Some(LedgerEntry { amount: 100, state: TxState::Disputed }));
    assert_eq!(client.account().available(), 20);
    assert_eq!(client.account().held(), 0);
    assert!(matches!(client.dispute(1), Err(Error::AlreadyDisputed)));
}

#[test]
fn dispute_then_resolve_restores_the_client_funds() {
    let mut client = Client::new(1);
    client.deposit(1, 20000000).unwrap();
    client.dispute(1).unwrap();
    assert_eq!(client.account().available(), 0);
    assert_eq!(client.account().held(), 20000000);
    assert_eq!(client.render(), "1,0,2000,2000,false");
    client.resolve(1).unwrap();
    assert_eq!(client.account().available(), 20000000);
    assert_eq!(client.account().held(), 0);
    assert_eq!(client.render(), "1,2000,0,2000,false");
}

#[test]
fn perform_does_what_the_operation_says() {
    let mut client = Client::new(1);
    assert!(matches!(client.perform(Operation::Deposit, 1, 100), Ok(0)));
    assert!(matches!(client.perform(Operation::Withdrawal, 2, 30), Ok(100)));
    // the amount of a dispute, a resolve and a chargeback is the recorded one
    assert!(matches!(client.perform(Operation::Dispute, 2, 999), Ok(70)));
    assert_eq!(client.account().held(), 30);
    assert!(matches!(client.perform(Operation::Resolve, 2, 999), Ok(40)));
    assert!(matches!(client.perform(Operation::Dispute, 1, 0), Err(Error::NotEnoughFunds)));
    assert!(matches!(client.perform(Operation::Chargeback, 1, 0), Ok(70)));
    assert_eq!(client.account().held(), -100);
    assert!(client.account().locked());
}

#[test]
fn dispatch_reads_the_kind_in_any_case() {
    let mut client = Client::new(1);
    assert!(matches!(client.dispatch(Query::new("Deposit".to_string(), 1, 1, 500)), Ok(0)));
    assert!(matches!(client.dispatch(Query::new("WITHDRAWAL".to_string(), 1, 2, 200)), Ok(500)));
    assert!(matches!(client.dispatch(Query::new("dispute".to_string(), 1, 1, 0)), Err(Error::NotEnoughFunds)));
    assert!(matches!(client.dispatch(Query::new("DiSpUtE".to_string(), 1, 2, 0)), Ok(300)));
    assert!(matches!(client.dispatch(Query::new("Resolve".to_string(), 1, 2, 0)), Ok(100)));
    assert!(matches!(client.dispatch(Query::new("chargeBACK".to_string(), 1, 2, 0)), Err(Error::NotUnderDispute)));
    assert_eq!(client.account().available(), 300);
    assert_eq!(client.account().held(), 0);
}

#[test]
fn dispatch_refuses_duplicates_before_the_account_is_touched() {
    let mut client = Client::new(1);
    client.dispatch(Query::new("deposit".to_string(), 1, 1, 500)).unwrap();
    assert!(matches!(
        client.dispatch(Query::new("deposit".to_string(), 1, 1, 100)),
        Err(Error::DuplicatedTx)
    ));
    assert!(matches!(
        client.dispatch(Query::new("withdrawal".to_string(), 1, 1, 100)),
        Err(Error::DuplicatedTx)
    ));
    assert_eq!(client.account().available(), 500);
}

#[test]
fn dispatch_hands_back_an_unknown_kind_as_given() {
    let mut client = Client::new(1);
    client.dispatch(Query::new("deposit".to_string(), 1, 1, 500)).unwrap();
    match client.dispatch(Query::new("Transfer".to_string(), 1, 2, 100)) {
        Err(Error::InvalidQueryType(kind)) => assert_eq!(kind, "Transfer"),
        other => panic!("unexpected answer {:?}", other),
    }
    assert_eq!(client.account().available(), 500);
    assert_eq!(client.entry(2), None);
}

#[test]
fn dispatch_does_not_look_at_the_client_of_the_record() {
    let mut client = Client::new(1);
    assert!(client.dispatch(Query::new("deposit".to_string(), 9, 1, 500)).is_ok());
    assert_eq!(client.id(), 1);
    assert_eq!(client.account().available(), 500);
}

#[test]
fn client_row() {
    let mut client = Client::new(65535);
    assert_eq!(client.render(), "65535,0,0,0,false");
    client.deposit(1, 48631).unwrap();
    client.deposit(2, 20962).unwrap();
    client.dispute(2).unwrap();
    assert_eq!(client.render(), "65535,4.8631,2.0962,6.9593,false");
    assert_eq!(REPORT_HEADER, "client,available,held,total,locked");
}
