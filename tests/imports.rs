use std::str::FromStr;

use bigdecimal::BigDecimal;
use ledger_core::amount::parse_amount;
use ledger_core::import::{
    ImportAction, ImportCategory, ImportError, ImportEvent, ImportPayload, ImportSession,
    ImportTransaction,
};
use ledger_core::time::Timestamp;

const USER: u128 = 42;

fn at(seconds: i64) -> Timestamp {
    Timestamp { seconds, nanos: 0 }
}

fn category(name: &str, seconds: i64) -> ImportCategory {
    ImportCategory { name: name.to_string(), created_at: at(seconds) }
}

fn transaction(name: &str, description: &str, amount: &str) -> ImportTransaction {
    ImportTransaction {
        category: category(name, 0),
        description: description.to_string(),
        amount: amount.to_string(),
        created_at: at(500),
    }
}

/// A stand-in for the store: it answers each action, handing out category
/// ids by name as an upsert on (user, name) does, and records what was
/// written inside the store transaction.
struct FakeStore {
    names: Vec<String>,
    upserts: Vec<(String, Timestamp)>,
    inserts: Vec<(i32, String, BigDecimal)>,
    committed: bool,
    rolled_back: bool,
    fail_at: Option<usize>,
    ops: usize,
}

impl FakeStore {
    fn new(fail_at: Option<usize>) -> FakeStore {
        FakeStore {
            names: Vec::new(),
            upserts: Vec::new(),
            inserts: Vec::new(),
            committed: false,
            rolled_back: false,
            fail_at,
            ops: 0,
        }
    }

    fn run(&mut self, payload: ImportPayload) -> Result<(), ImportError> {
        let mut session = ImportSession::new(USER, payload);
        let mut event = ImportEvent::Start;
        loop {
            let action = session.step(event);
            if let ImportAction::Finish(r) = action {
                return r;
            }
            self.ops += 1;
            if Some(self.ops) == self.fail_at {
                event = ImportEvent::StorageFailed;
                continue;
            }
            event = match action {
                ImportAction::Begin => ImportEvent::Opened,
                ImportAction::UpsertCategory { user_id, name, created_at } => {
                    assert_eq!(user_id, USER);
                    let id = match self.names.iter().position(|n| *n == name) {
                        Some(i) => i,
                        None => {
                            self.names.push(name.clone());
                            self.names.len() - 1
                        }
                    };
                    self.upserts.push((name, created_at));
                    ImportEvent::CategoryStored(100 + id as i32)
                }
                ImportAction::InsertTransaction { user_id, category_id, description, amount, created_at } => {
                    assert_eq!(user_id, USER);
                    assert_eq!(created_at, at(500));
                    assert!(amount.source_text().parse::<f64>().is_ok());
                    self.inserts.push((category_id, description, amount.into_value()));
                    ImportEvent::TransactionStored
                }
                ImportAction::Commit => {
                    self.committed = true;
                    ImportEvent::Committed
                }
                ImportAction::Rollback => {
                    self.rolled_back = true;
                    ImportEvent::RolledBack
                }
                ImportAction::Finish(_) => unreachable!(),
            };
        }
    }
}

#[test]
fn import_two_categories_two_transactions() {
    let payload = ImportPayload {
        categories: vec![category("A", 1), category("B", 2)],
        transactions: vec![transaction("A", "lunch", "10.50"), transaction("B", "refund", "-3.25")],
    };
    let mut store = FakeStore::new(None);
    assert_eq!(store.run(payload), Ok(()));
    assert!(store.committed);
    assert!(!store.rolled_back);
    assert_eq!(store.upserts, vec![("A".to_string(), at(1)), ("B".to_string(), at(2))]);
    assert_eq!(store.inserts.len(), 2);
    assert_eq!(store.inserts[0].0, 100);
    assert_eq!(store.inserts[0].1, "lunch");
    assert_eq!(store.inserts[0].2, BigDecimal::from_str("10.50").unwrap());
    assert_eq!(store.inserts[1].0, 101);
    assert_eq!(store.inserts[1].1, "refund");
    assert_eq!(store.inserts[1].2, BigDecimal::from_str("-3.25").unwrap());
}

#[test]
fn import_unresolved_category_rolls_back() {
    let payload = ImportPayload {
        categories: vec![category("A", 1), category("B", 2)],
        transactions: vec![
            transaction("A", "first", "1"),
            transaction("B", "second", "2"),
            transaction("C", "third", "3"),
            transaction("A", "fourth", "4"),
        ],
    };
    let mut store = FakeStore::new(None);
    assert_eq!(store.run(payload), Err(ImportError::UnresolvedCategory));
    assert!(!store.committed);
    assert!(store.rolled_back);
    assert_eq!(store.inserts.len(), 2);
}

#[test]
fn import_names_match_case_sensitively() {
    let payload = ImportPayload {
        categories: vec![category("Food", 1)],
        transactions: vec![transaction("food", "snack", "1")],
    };
    let mut store = FakeStore::new(None);
    assert_eq!(store.run(payload), Err(ImportError::UnresolvedCategory));
    assert!(!store.committed);
}

#[test]
fn import_same_category_twice_maps_to_one_row() {
    let payload = ImportPayload {
        categories: vec![category("Food", 1), category("Food", 2)],
        transactions: vec![transaction("Food", "bread", "2.10")],
    };
    let mut store = FakeStore::new(None);
    assert_eq!(store.run(payload), Ok(()));
    assert_eq!(store.names, vec!["Food".to_string()]);
    assert_eq!(store.upserts, vec![("Food".to_string(), at(1)), ("Food".to_string(), at(2))]);
    assert_eq!(store.inserts.len(), 1);
    assert_eq!(store.inserts[0].0, 100);
}

#[test]
fn import_later_upsert_id_wins() {
    // a store that hands out a new id on every upsert: the mapping keeps the last
    let payload = ImportPayload {
        categories: vec![category("Food", 1), category("Food", 2)],
        transactions: vec![transaction("Food", "bread", "2.10")],
    };
    let mut session = ImportSession::new(USER, payload);
    assert!(matches!(session.step(ImportEvent::Start), ImportAction::Begin));
    assert!(matches!(session.step(ImportEvent::Opened), ImportAction::UpsertCategory { .. }));
    assert!(matches!(session.step(ImportEvent::CategoryStored(7)), ImportAction::UpsertCategory { .. }));
    match session.step(ImportEvent::CategoryStored(9)) {
        ImportAction::InsertTransaction { category_id, .. } => assert_eq!(category_id, 9),
        _ => panic!("expected an insert"),
    }
    assert!(matches!(session.step(ImportEvent::TransactionStored), ImportAction::Commit));
    assert!(matches!(session.step(ImportEvent::Committed), ImportAction::Finish(Ok(()))));
    assert!(matches!(session.step(ImportEvent::Committed), ImportAction::Finish(Ok(()))));
}

#[test]
fn import_invalid_amount_rolls_back() {
    for bad in ["NaN", "inf", "", "1.2.3", "ten"] {
        let payload = ImportPayload {
            categories: vec![category("A", 1)],
            transactions: vec![transaction("A", "x", "1"), transaction("A", "y", bad)],
        };
        let mut store = FakeStore::new(None);
        assert_eq!(store.run(payload), Err(ImportError::InvalidAmount));
        assert!(!store.committed);
        assert!(store.rolled_back);
    }
}

#[test]
fn import_storage_failure_rolls_back() {
    // operations: begin, upsert A, upsert B, insert, commit
    for fail_at in 2..5 {
        let payload = ImportPayload {
            categories: vec![category("A", 1), category("B", 2)],
            transactions: vec![transaction("A", "x", "1")],
        };
        let mut store = FakeStore::new(Some(fail_at));
        assert_eq!(store.run(payload), Err(ImportError::PersistenceError));
        assert!(!store.committed);
        assert!(store.rolled_back);
    }
}

#[test]
fn import_begin_or_commit_failure_is_persistence_error() {
    for fail_at in [1, 4] {
        let payload = ImportPayload {
            categories: vec![category("A", 1)],
            transactions: vec![transaction("A", "x", "1")],
        };
        let mut store = FakeStore::new(Some(fail_at));
        assert_eq!(store.run(payload), Err(ImportError::PersistenceError));
        assert!(!store.rolled_back);
    }
}

#[test]
fn import_empty_batch_commits() {
    let payload = ImportPayload { categories: vec![], transactions: vec![] };
    let mut store = FakeStore::new(None);
    assert_eq!(store.run(payload), Ok(()));
    assert!(store.committed);
}

#[test]
fn import_transactions_need_batch_categories() {
    let payload = ImportPayload { categories: vec![], transactions: vec![transaction("A", "x", "1")] };
    let mut store = FakeStore::new(None);
    assert_eq!(store.run(payload), Err(ImportError::UnresolvedCategory));
    assert!(!store.committed);
}

#[test]
fn amount_text_parses_exactly() {
    let a = parse_amount("10.50").unwrap();
    assert_eq!(a.source_text(), "10.50");
    assert_eq!(*a.value(), BigDecimal::from_str("10.5").unwrap());
    assert_eq!(parse_amount("-3.25").unwrap().into_value(), BigDecimal::from_str("-3.25").unwrap());
    assert_eq!(parse_amount("1e3").unwrap().into_value(), BigDecimal::from(1000));
    assert!(parse_amount("NaN").is_none());
}

#[test]
fn inserted_amount_is_read_from_its_transaction() {
    let payload = ImportPayload {
        categories: vec![category("A", 1)],
        transactions: vec![transaction("A", "x", "0.1"), transaction("A", "y", "-7")],
    };
    let mut session = ImportSession::new(USER, payload);
    session.step(ImportEvent::Start);
    session.step(ImportEvent::Opened);
    match session.step(ImportEvent::CategoryStored(3)) {
        ImportAction::InsertTransaction { amount, .. } => {
            assert_eq!(amount.source_text(), "0.1");
            assert_eq!(amount.into_value(), BigDecimal::from_str("0.1").unwrap());
        }
        _ => panic!("expected an insert"),
    }
    match session.step(ImportEvent::TransactionStored) {
        ImportAction::InsertTransaction { amount, .. } => {
            assert_eq!(amount.into_value(), BigDecimal::from(-7));
        }
        _ => panic!("expected an insert"),
    }
}

#[test]
fn import_error_statuses() {
    assert_eq!(ImportError::UnresolvedCategory.status(), 400);
    assert_eq!(ImportError::InvalidAmount.status(), 400);
    assert_eq!(ImportError::PersistenceError.status(), 500);
}
