use account_table::error::{Reason, TableError};
use account_table::validation::validate;

#[test]
fn a_well_formed_pair_passes() {
    assert_eq!(validate("John", "EatMyWhale69"), Ok(()));
}

#[test]
fn first_broken_rule_is_reported() {
    assert_eq!(validate("ab", "x"), Err(Reason::UserTooShort));
}

#[test]
fn username_rules_come_before_password_rules() {
    assert_eq!(validate("J\u{f6}hn", "x"), Err(Reason::UserNotAscii));
    assert_eq!(validate("abcdefghijklmnop", "p\u{e4}ss"), Err(Reason::UserTooLong));
    assert_eq!(validate("ab", "p\u{e4}ssword"), Err(Reason::UserTooShort));
}

#[test]
fn ascii_is_judged_before_length() {
    assert_eq!(validate("\u{e9}", "EatMyWhale69"), Err(Reason::UserNotAscii));
    assert_eq!(validate("John", "\u{e9}"), Err(Reason::PassNotAscii));
    let long = "\u{e9}".repeat(30);
    assert_eq!(validate(&long, "EatMyWhale69"), Err(Reason::UserNotAscii));
    assert_eq!(validate("John", &long), Err(Reason::PassNotAscii));
}

#[test]
fn username_length_edges() {
    let pass = "EatMyWhale69";
    assert_eq!(validate(&"a".repeat(3), pass), Err(Reason::UserTooShort));
    assert_eq!(validate(&"a".repeat(4), pass), Ok(()));
    assert_eq!(validate(&"a".repeat(14), pass), Ok(()));
    assert_eq!(validate(&"a".repeat(15), pass), Err(Reason::UserTooLong));
    assert_eq!(validate("", pass), Err(Reason::UserTooShort));
}

#[test]
fn password_length_edges() {
    let user = "John";
    assert_eq!(validate(user, &"p".repeat(7)), Err(Reason::PassTooShort));
    assert_eq!(validate(user, &"p".repeat(8)), Ok(()));
    assert_eq!(validate(user, &"p".repeat(24)), Ok(()));
    assert_eq!(validate(user, &"p".repeat(25)), Err(Reason::PassTooLong));
    assert_eq!(validate(user, ""), Err(Reason::PassTooShort));
}

#[test]
fn every_reason_has_its_message() {
    assert_eq!(Reason::UserNotAscii.message(), "username must be pure ASCII");
    assert_eq!(Reason::UserTooShort.message(), "username must be longer than 3 characters");
    assert_eq!(Reason::UserTooLong.message(), "username must be shorter than 15 characters");
    assert_eq!(Reason::PassNotAscii.message(), "password must be pure ASCII");
    assert_eq!(Reason::PassTooShort.message(), "password must be longer than 7 characters");
    assert_eq!(Reason::PassTooLong.message(), "password must be shorter than 25 characters");
}

#[test]
fn every_error_has_its_message() {
    assert_eq!(
        TableError::Validation(Reason::PassTooLong).message(),
        Reason::PassTooLong.message()
    );
    assert_eq!(TableError::UsernameTaken.message(), "username is already taken");
    assert_eq!(TableError::OutOfRange.message(), "key is out of the hash range");
    assert_eq!(TableError::Deserialization.message(), "malformed data");
}
