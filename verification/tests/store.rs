use chat_ledger::amount::Amount;
use chat_ledger::db::DB;
use chat_ledger::db::Transaction;

fn tx(user_id: i64, title: &str, pence: i64, description: &str) -> Transaction {
    Transaction {
        user_id,
        title: title.to_owned(),
        amount: Amount { pence },
        description: description.to_owned(),
    }
}

#[test]
fn round_trips_added_transactions() {
    let mut db = DB::new();
    db.add_transaction(1, tx(7, "Coffee", 450, ""));
    db.add_transaction(1, tx(8, "Snacks", 300, "crisps"));
    let got = db.get_transactions(1);
    assert_eq!(got.len(), 2);
    assert_eq!(got[0], tx(7, "Coffee", 450, ""));
    assert_eq!(got[1], tx(8, "Snacks", 300, "crisps"));
}

#[test]
fn keeps_insertion_order() {
    let mut db = DB::new();
    for i in 0..5i64 {
        db.add_transaction(9, tx(i, &format!("t{}", i), i * 100, ""));
    }
    let got = db.get_transactions(9);
    let titles: Vec<String> = got.iter().map(|t| t.title.clone()).collect();
    assert_eq!(titles, vec!["t0", "t1", "t2", "t3", "t4"]);
}

#[test]
fn separates_conversations() {
    let mut db = DB::new();
    db.add_transaction(1, tx(7, "Coffee", 450, ""));
    db.add_transaction(2, tx(7, "Tea", 250, ""));
    assert_eq!(db.get_transactions(1).len(), 1);
    assert_eq!(db.get_transactions(2).len(), 1);
    assert_eq!(db.get_transactions(3).len(), 0);
    assert_eq!(db.get_transactions(1)[0].title, "Coffee");
    assert_eq!(db.get_transactions(2)[0].title, "Tea");
}

#[test]
fn reset_then_get_is_empty() {
    let mut db = DB::new();
    db.add_transaction(1, tx(7, "Coffee", 450, ""));
    db.add_transaction(1, tx(7, "Tea", 250, ""));
    db.add_transaction(2, tx(7, "Cake", 600, ""));
    db.reset_chat(1);
    assert!(db.get_transactions(1).is_empty());
    assert_eq!(db.get_transactions(2).len(), 1);
}

#[test]
fn reset_of_empty_ledger_is_silent() {
    let mut db = DB::new();
    db.reset_chat(5);
    db.reset_chat(5);
    assert!(db.get_transactions(5).is_empty());
}

#[test]
fn upsert_then_get_username() {
    let mut db = DB::new();
    db.update_user(42, Some("alice"));
    assert_eq!(db.get_username(42), Some("alice".to_owned()));
    db.update_user(42, None);
    assert_eq!(db.get_username(42), Some("alice".to_owned()));
}

#[test]
fn upsert_overwrites_name() {
    let mut db = DB::new();
    db.update_user(42, Some("alice"));
    db.update_user(42, Some("alicia"));
    assert_eq!(db.get_username(42), Some("alicia".to_owned()));
}

#[test]
fn absent_user_has_no_name() {
    let db = DB::new();
    assert_eq!(db.get_username(42), None);
}

#[test]
fn nameless_row_has_no_name() {
    let mut db = DB::new();
    db.update_user(42, None);
    assert_eq!(db.get_username(42), None);
    db.update_user(43, Some("bob"));
    assert_eq!(db.get_username(42), None);
    assert_eq!(db.get_username(43), Some("bob".to_owned()));
}
