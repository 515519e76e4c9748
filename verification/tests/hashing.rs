use account_table::error::TableError;
use account_table::hash::{hash, BUCKET_COUNT, MAX, MIN, PRIME};

#[test]
fn bucket_count_follows_from_the_constants() {
    assert_eq!(BUCKET_COUNT, ((MAX - MIN) / PRIME + 1) as usize);
    assert_eq!(BUCKET_COUNT, 28_184);
}

#[test]
fn constants_are_the_extreme_prefixes() {
    assert_eq!(MIN, u32::from_le_bytes(*b"!!!!"));
    assert_eq!(MAX, u32::from_le_bytes(*b"~~~~"));
}

#[test]
fn hash_of_john() {
    // 'J' 'o' 'h' 'n' read little-endian is 0x6E686F4A = 1_852_337_994.
    assert_eq!(hash("John"), Ok((1_852_337_994 - 555_819_297) / 55_579));
    assert_eq!(hash("John"), Ok(23_327));
}

#[test]
fn hash_reads_only_the_first_four_bytes() {
    assert_eq!(hash("John"), hash("Johnny"));
    assert_eq!(hash("JohnEatMyWhale69"), Ok(23_327));
}

#[test]
fn hash_is_little_endian() {
    // The fourth byte weighs most, the first least.
    assert_eq!(hash("!!!\""), Ok(16_777_216 / 55_579));
    assert_eq!(hash("!!!\""), Ok(301));
    assert_eq!(hash("\"!!!"), Ok(0));
}

#[test]
fn hash_at_the_edges_of_the_range() {
    assert_eq!(hash("!!!!"), Ok(0));
    assert_eq!(hash("~~~~"), Ok(28_183));
    assert_eq!(hash(" !!!"), Err(TableError::OutOfRange));
    assert_eq!(hash("\u{7f}~~~"), Err(TableError::OutOfRange));
}

#[test]
fn hash_refuses_short_keys() {
    assert_eq!(hash(""), Err(TableError::OutOfRange));
    assert_eq!(hash("Joh"), Err(TableError::OutOfRange));
}

#[test]
fn hash_refuses_prefixes_outside_the_range() {
    assert_eq!(hash("    "), Err(TableError::OutOfRange));
    assert_eq!(hash("abc "), Err(TableError::OutOfRange));
    assert_eq!(hash("\u{7f}\u{7f}\u{7f}\u{7f}"), Err(TableError::OutOfRange));
    assert_eq!(hash("abc\u{7f}"), Err(TableError::OutOfRange));
}

#[test]
fn hash_works_on_the_bytes_of_the_key() {
    // "é" is the two bytes C3 A9, so the prefix is C3 A9 21 21.
    assert_eq!(hash("\u{e9}!!!"), Ok((0x2121_A9C3 - 0x2121_2121) / 55_579));
    // Three bytes only.
    assert_eq!(hash("\u{e9}!"), Err(TableError::OutOfRange));
}

#[test]
fn every_index_is_inside_the_table() {
    for key in ["!!!!", "~~~~", "John", "zzzz", "AAAA", "0000", "a~b~"] {
        let index = hash(key).expect("printable keys have a bucket");
        assert!((index as usize) < BUCKET_COUNT);
    }
}
