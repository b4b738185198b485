use account_ledger::error::Error;
use account_ledger::query::Query;
use account_ledger::registry::Registry;

fn query(kind: &str, client: u16, tx: u32, amount: i64) -> Query {
    Query::new(kind.to_string(), client, tx, amount)
}

// amounts of the input are decimal numbers; the ledger takes ten-thousandths
fn scaled(amount: f64) -> i64 {
    (amount * 10000.0) as i64
}

#[test]
fn sample_data() {
    let mut clients = Registry::new();
    clients.process(vec![
        query("deposit", 1, 1, scaled(2.12)),
        query("deposit", 2, 2, scaled(18.9999)),
    ]);

    assert_eq!(clients.get(1).unwrap().render(), "1,2.12,0,2.12,false");
    assert_eq!(clients.get(2).unwrap().render(), "2,18.9999,0,18.9999,false");
}

#[test]
fn complex_data() {
    let mut clients = Registry::new();
    clients.process(vec![
        query("deposit", 1, 1, 1390000),
        query("deposit", 2, 2, 20000000),
        query("deposit", 1, 3, 205000),
        query("withdrawal", 2, 4, 300000),
        query("deposit", 3, 5, 10000000),
        query("dispute", 1, 3, 0),
        query("withdrawal", 2, 6, 50000000),
        query("deposit", 3, 7, 5000000),
        query("deposit", 2, 2, 10000),
        query("dispute", 3, 7, 0),
        query("resolve", 2, 4, 0),
        query("chargeback", 3, 7, 0),
        query("deposit", 3, 8, 10000),
        query("refund", 1, 9, 10000),
    ]);

    assert_eq!(clients.get(1).unwrap().render(), "1,139,20.5,159.5,false");
    assert_eq!(clients.get(2).unwrap().render(), "2,1970,0,1970,false");
    assert_eq!(clients.get(3).unwrap().render(), "3,1000,0,1000,true");
}

#[test]
fn float_data() {
    let mut clients = Registry::new();
    clients.process(vec![
        query("deposit", 1, 1, 48631),
        query("deposit", 1, 2, 20962),
        query("dispute", 1, 2, 0),
    ]);

    assert_eq!(clients.get(1).unwrap().render(), "1,4.8631,2.0962,6.9593,false");
}

#[test]
fn new_registry_is_empty() {
    let clients = Registry::new();
    assert_eq!(clients.len(), 0);
    assert!(clients.ids().is_empty());
    assert!(clients.get(1).is_none());
}

#[test]
fn get_or_create_makes_a_client_once() {
    let mut clients = Registry::new();
    {
        let client = clients.get_or_create(4);
        assert_eq!(client.id(), 4);
        assert_eq!(client.account().available(), 0);
        client.deposit(1, 100).unwrap();
    }
    assert_eq!(clients.len(), 1);
    {
        let client = clients.get_or_create(4);
        assert_eq!(client.account().available(), 100);
        client.withdraw(2, 30).unwrap();
    }
    assert_eq!(clients.len(), 1);
    assert_eq!(clients.get(4).unwrap().account().available(), 70);
    clients.get_or_create(5);
    assert_eq!(clients.len(), 2);
    assert_eq!(clients.get(5).unwrap().id(), 5);
    assert_eq!(clients.get(5).unwrap().account().available(), 0);
}

#[test]
fn ids_holds_every_client_once() {
    let mut clients = Registry::new();
    clients.process(vec![
        query("deposit", 3, 1, 1),
        query("deposit", 1, 2, 1),
        query("deposit", 3, 3, 1),
        query("deposit", 2, 4, 1),
        query("deposit", 1, 5, 1),
    ]);
    let mut ids = clients.ids();
    ids.sort();
    assert_eq!(ids, vec![1, 2, 3]);
    assert_eq!(clients.len(), 3);
}

#[test]
fn report_has_the_header_and_a_row_for_each_client() {
    let mut clients = Registry::new();
    assert_eq!(clients.report(), vec!["client,available,held,total,locked"]);

    clients.process(vec![
        query("deposit", 2, 1, 189999),
        query("deposit", 1, 2, 21200),
        query("deposit", 3, 3, 10000),
        query("dispute", 3, 3, 0),
        query("chargeback", 3, 3, 0),
    ]);
    let report = clients.report();
    assert_eq!(report.len(), 4);
    assert_eq!(report[0], "client,available,held,total,locked");
    let mut rows = report[1..].to_vec();
    rows.sort();
    assert_eq!(rows, vec!["1,2.12,0,2.12,false", "2,18.9999,0,18.9999,false", "3,0,0,0,true"]);
}

#[test]
fn handle_routes_by_client() {
    let mut clients = Registry::new();
    assert!(matches!(clients.handle(query("deposit", 1, 1, 100)), Ok(0)));
    assert!(matches!(clients.handle(query("deposit", 2, 1, 50)), Ok(0)));
    assert!(matches!(clients.handle(query("withdrawal", 1, 2, 30)), Ok(100)));
    // transaction ids are kept per client
    assert!(matches!(clients.handle(query("dispute", 2, 2, 0)), Err(Error::NoTxFound)));
    assert!(matches!(clients.handle(query("dispute", 2, 1, 0)), Ok(50)));
    assert_eq!(clients.get(1).unwrap().account().available(), 70);
    assert_eq!(clients.get(1).unwrap().account().held(), 0);
    assert_eq!(clients.get(2).unwrap().account().available(), 0);
    assert_eq!(clients.get(2).unwrap().account().held(), 50);
}

#[test]
fn a_refused_record_still_creates_its_client() {
    let mut clients = Registry::new();
    assert!(matches!(clients.handle(query("resolve", 8, 1, 0)), Err(Error::NoTxFound)));
    assert!(matches!(clients.handle(query("bogus", 9, 1, 0)), Err(Error::InvalidQueryType(_))));
    assert_eq!(clients.len(), 2);
    assert_eq!(clients.get(8).unwrap().render(), "8,0,0,0,false");
    assert_eq!(clients.get(9).unwrap().render(), "9,0,0,0,false");
}

#[test]
fn process_answers_every_record_in_order() {
    let mut clients = Registry::new();
    let answers = clients.process(vec![
        query("deposit", 1, 1, 100),
        query("withdrawal", 1, 2, 500),
        query("Deposit", 1, 1, 100),
        query("transfer", 1, 3, 100),
        query("dispute", 1, 7, 0),
        query("resolve", 1, 1, 0),
        query("dispute", 1, 1, 0),
        query("dispute", 1, 1, 0),
        query("chargeback", 1, 1, 0),
        query("deposit", 1, 4, 100),
        query("deposit", 2, 1, 5),
    ]);
    assert_eq!(answers.len(), 11);
    assert!(matches!(answers[0], Ok(0)));
    assert!(matches!(answers[1], Err(Error::NotEnoughFunds)));
    assert!(matches!(answers[2], Err(Error::DuplicatedTx)));
    assert!(matches!(answers[3], Err(Error::InvalidQueryType(_))));
    assert!(matches!(answers[4], Err(Error::NoTxFound)));
    assert!(matches!(answers[5], Err(Error::NotUnderDispute)));
    assert!(matches!(answers[6], Ok(100)));
    assert!(matches!(answers[7], Err(Error::AlreadyDisputed)));
    assert!(matches!(answers[8], Ok(0)));
    assert!(matches!(answers[9], Err(Error::AccountIsLocked)));
    assert!(matches!(answers[10], Ok(0)));
    assert_eq!(clients.get(1).unwrap().render(), "1,0,0,0,true");
    assert_eq!(clients.get(2).unwrap().render(), "2,0.0005,0,0.0005,false");
}

#[test]
fn process_of_nothing_changes_nothing() {
    let mut clients = Registry::new();
    clients.handle(query("deposit", 1, 1, 100)).unwrap();
    let answers = clients.process(Vec::new());
    assert!(answers.is_empty());
    assert_eq!(clients.len(), 1);
    assert_eq!(clients.get(1).unwrap().account().available(), 100);
}

#[test]
fn process_goes_on_from_what_the_registry_holds() {
    let mut clients = Registry::new();
    clients.process(vec![query("deposit", 1, 1, 100)]);
    let answers = clients.process(vec![query("deposit", 1, 1, 100), query("dispute", 1, 1, 0)]);
    assert!(matches!(answers[0], Err(Error::DuplicatedTx)));
    assert!(matches!(answers[1], Ok(100)));
    assert_eq!(clients.get(1).unwrap().account().held(), 100);
}
