use account_ledger::error::Error;
use account_ledger::query::Query;
use account_ledger::AccountOwner;

struct Counter {
    seen: i64,
}

impl AccountOwner for Counter {
    fn dispatch(&mut self, _query: Query) -> Result<i64, Error> {
        self.seen += 1;
        Ok(self.seen)
    }
}

#[test]
fn an_owner_of_another_kind() {
    let mut counter = Counter { seen: 0 };
    assert!(matches!(counter.dispatch(Query::new("deposit".to_string(), 1, 1, 1)), Ok(1)));
    assert!(matches!(counter.dispatch(Query::new("deposit".to_string(), 1, 1, 1)), Ok(2)));
}
