use account_table::benchmark::Benchmark;
use account_table::database::Database;
use account_table::hash::hash;
use account_table::random::{randint, randstr, spell, ASCII, DRAWN};
use account_table::validation::validate;
use std::time::Duration;

#[test]
fn alphabet_is_printable_ascii() {
    assert_eq!(ASCII.len(), 94);
    assert_eq!(DRAWN, 93);
    let mut sorted = ASCII.to_vec();
    sorted.sort();
    let printable: Vec<char> = ('!'..='~').collect();
    assert_eq!(sorted, printable);
    assert_eq!(ASCII[0], '@');
    assert_eq!(ASCII[93], '_');
}

#[test]
fn spell_maps_each_index_to_its_character() {
    assert_eq!(spell(&vec![]), "");
    assert_eq!(spell(&vec![0, 3, 93]), "@A_");
    assert_eq!(spell(&vec![30, 31, 46, 41]), "Jjo.");
    assert_eq!(spell(&vec![2, 2, 2, 2]), "!!!!");
}

#[test]
fn randint_stays_in_its_range() {
    for _ in 0..1000 {
        let n = randint(4..15);
        assert!((4..15).contains(&n));
    }
    for _ in 0..100 {
        assert_eq!(randint(7..8), 7);
    }
}

#[test]
fn randint_varies() {
    let first = randint(0..usize::MAX);
    let differs = (0..20).any(|_| randint(0..usize::MAX) != first);
    assert!(differs);
}

#[test]
fn randstr_has_length_and_characters_as_promised() {
    for _ in 0..500 {
        let user = randstr(4..15);
        assert!((4..15).contains(&user.len()));
        assert!(user.chars().all(|c| ('!'..='~').contains(&c) && c != '_'));
    }
    assert_eq!(randstr(0..1), "");
    assert_eq!(randstr(5..6).len(), 5);
}

#[test]
fn random_pairs_pass_validation_and_have_a_bucket() {
    for _ in 0..500 {
        let user = randstr(4..15);
        let pass = randstr(8..25);
        assert_eq!(validate(&user, &pass), Ok(()));
        assert!(hash(&user).is_ok());
    }
}

#[test]
fn generate_accounts_adds_what_it_reports() {
    let mut table = Database::new();
    let added = table.generate_accounts(200, 10_000);
    assert_eq!(added, 200);
    assert_eq!(table.total(), 200);
    assert_eq!(table.issued(), 200);
}

#[test]
fn generate_accounts_stops_when_the_draws_are_used() {
    let mut table = Database::new();
    assert_eq!(table.generate_accounts(10, 0), 0);
    assert_eq!(table.total(), 0);
    let added = table.generate_accounts(10, 3);
    assert!(added <= 3);
    assert_eq!(table.total(), added);
    assert_eq!(table.generate_accounts(0, 100), 0);
    assert_eq!(table.total(), added);
}

#[test]
fn generate_accounts_keeps_what_was_stored() {
    let mut table = Database::new();
    assert!(table.add("John".to_string(), "EatMyWhale69".to_string()).is_ok());
    let added = table.generate_accounts(100, 5_000);
    assert_eq!(table.total(), 1 + added);
    assert_eq!(
        table.find("John".to_string(), "EatMyWhale69".to_string()).map(|a| a.id),
        Some(1)
    );
    let snapshot = table.backup();
    for (index, row) in snapshot.iter().enumerate() {
        for account in row {
            assert_eq!(hash(&account.user), Ok(index as u32));
            assert_eq!(validate(&account.user, &account.pass), Ok(()));
        }
    }
}

#[test]
fn benchmark_holds_a_value_and_its_time() {
    let measured = Benchmark { content: 23_327u32, elapsed: Duration::from_millis(5) };
    assert_eq!(measured.content, 23_327);
    assert_eq!(measured.elapsed, Duration::from_millis(5));
}
