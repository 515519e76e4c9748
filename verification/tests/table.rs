use account_table::account::Account;
use account_table::database::Database;
use account_table::error::{Reason, TableError};

fn text(s: &str) -> String {
    s.to_string()
}

#[test]
fn john_is_added_and_found() {
    let mut table = Database::new();
    let account = table
        .add(text("John"), text("EatMyWhale69"))
        .expect("a valid pair with a free username is added");
    assert_eq!(
        account,
        Account { email: None, user: text("John"), pass: text("EatMyWhale69"), id: 1 }
    );
    assert_eq!(table.find(text("John"), text("EatMyWhale69")), Some(account));
    assert_eq!(table.find(text("John"), text("wrong")), None);
    assert_eq!(table.total(), 1);
}

#[test]
fn new_table_is_empty() {
    let table = Database::new();
    assert_eq!(table.total(), 0);
    assert_eq!(table.issued(), 0);
    assert_eq!(table.find(text("John"), text("EatMyWhale69")), None);
    assert_eq!(table.backup().len(), 28_184);
}

#[test]
fn account_new_has_no_email() {
    let account = Account::new(text("John"), text("EatMyWhale69"), 7);
    assert_eq!(account.email, None);
    assert_eq!(account.user, "John");
    assert_eq!(account.pass, "EatMyWhale69");
    assert_eq!(account.id, 7);
    assert_eq!(account.clone(), account);
}

#[test]
fn add_then_find_returns_the_account() {
    let mut table = Database::new();
    for (user, pass) in [("alice", "correcthorse"), ("bobby", "batterystaple"), ("!!!!", "~~~~~~~~")]
    {
        let added = table.add(text(user), text(pass)).expect("the pair is accepted");
        assert_eq!(table.find(text(user), text(pass)), Some(added));
    }
}

#[test]
fn second_add_of_a_username_is_refused() {
    let mut table = Database::new();
    assert!(table.add(text("John"), text("EatMyWhale69")).is_ok());
    assert_eq!(table.add(text("John"), text("EatMyWhale69")), Err(TableError::UsernameTaken));
    assert_eq!(table.add(text("John"), text("AnotherPassword")), Err(TableError::UsernameTaken));
    assert_eq!(table.total(), 1);
    assert_eq!(table.issued(), 1);
    assert_eq!(table.find(text("John"), text("AnotherPassword")), None);
}

#[test]
fn validation_comes_before_the_taken_check() {
    let mut table = Database::new();
    assert!(table.add(text("John"), text("EatMyWhale69")).is_ok());
    assert_eq!(
        table.add(text("John"), text("x")),
        Err(TableError::Validation(Reason::PassTooShort))
    );
}

#[test]
fn add_reports_each_validation_reason() {
    let mut table = Database::new();
    let cases = [
        ("J\u{f6}hn", "EatMyWhale69", Reason::UserNotAscii),
        ("Joh", "EatMyWhale69", Reason::UserTooShort),
        ("JohnJohnJohnJoh", "EatMyWhale69", Reason::UserTooLong),
        ("John", "EatMyWh\u{e4}le69", Reason::PassNotAscii),
        ("John", "EatMyWh", Reason::PassTooShort),
        ("John", "EatMyWhale69EatMyWhale69E", Reason::PassTooLong),
    ];
    for (user, pass, reason) in cases {
        assert_eq!(table.add(text(user), text(pass)), Err(TableError::Validation(reason)));
    }
    assert_eq!(table.total(), 0);
    assert_eq!(table.issued(), 0);
}

#[test]
fn add_refuses_a_username_without_a_bucket() {
    let mut table = Database::new();
    assert_eq!(table.add(text("    "), text("EatMyWhale69")), Err(TableError::OutOfRange));
    assert_eq!(table.add(text("abc def"), text("EatMyWhale69")), Err(TableError::OutOfRange));
    assert_eq!(table.total(), 0);
}

#[test]
fn find_of_a_key_without_a_bucket_finds_nothing() {
    let mut table = Database::new();
    assert!(table.add(text("John"), text("EatMyWhale69")).is_ok());
    assert_eq!(table.find(text(""), text("")), None);
    assert_eq!(table.find(text("Jo"), text("EatMyWhale69")), None);
    assert_eq!(table.find(text("    "), text("EatMyWhale69")), None);
}

#[test]
fn find_needs_both_username_and_password() {
    let mut table = Database::new();
    assert!(table.add(text("John"), text("EatMyWhale69")).is_ok());
    assert!(table.add(text("Johnny"), text("AnotherPassword")).is_ok());
    assert_eq!(table.find(text("John"), text("AnotherPassword")), None);
    assert_eq!(table.find(text("Johnny"), text("EatMyWhale69")), None);
    assert_eq!(table.find(text("Johnny"), text("AnotherPassword")).map(|a| a.id), Some(2));
    assert_eq!(table.find(text("John"), text("EatMyWhale69")).map(|a| a.id), Some(1));
}

#[test]
fn accounts_hashed_by_username_not_password() {
    // Both operations take the bucket from the username: an account whose
    // password would hash elsewhere is still found.
    let mut table = Database::new();
    assert!(table.add(text("aaaa"), text("zzzzzzzz")).is_ok());
    assert!(table.find(text("aaaa"), text("zzzzzzzz")).is_some());
    assert_eq!(table.find(text("zzzzzzzz"), text("aaaa")), None);
}

#[test]
fn total_counts_successful_adds() {
    let mut table = Database::new();
    let mut expected = 0;
    for n in 0..50 {
        let user = format!("user{}", n);
        assert!(table.add(user, text("EatMyWhale69")).is_ok());
        expected += 1;
        assert_eq!(table.total(), expected);
    }
    assert_eq!(table.total(), 50);
    assert_eq!(table.issued(), 50);
}

#[test]
fn ids_rise_by_one_and_skip_refused_adds() {
    let mut table = Database::new();
    assert_eq!(table.add(text("alice"), text("EatMyWhale69")).map(|a| a.id), Ok(1));
    assert_eq!(table.add(text("alice"), text("EatMyWhale69")).map(|a| a.id), Err(TableError::UsernameTaken));
    assert_eq!(table.add(text("al"), text("EatMyWhale69")).map(|a| a.id), Err(TableError::Validation(Reason::UserTooShort)));
    assert_eq!(table.add(text("bobby"), text("EatMyWhale69")).map(|a| a.id), Ok(2));
    assert_eq!(table.add(text("carol"), text("EatMyWhale69")).map(|a| a.id), Ok(3));
}

#[test]
fn accounts_sharing_a_bucket_keep_insertion_order() {
    let mut table = Database::new();
    for user in ["John", "John1", "John22", "John333"] {
        assert!(table.add(text(user), text("EatMyWhale69")).is_ok());
    }
    let snapshot = table.backup();
    let row: Vec<&str> = snapshot[23_327].iter().map(|a| a.user.as_str()).collect();
    assert_eq!(row, vec!["John", "John1", "John22", "John333"]);
    let elsewhere: usize =
        snapshot.iter().enumerate().filter(|(i, _)| *i != 23_327).map(|(_, r)| r.len()).sum();
    assert_eq!(elsewhere, 0);
}
