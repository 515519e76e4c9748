//! The sharding hash: from the first four bytes of a key to a bucket index.

use vstd::prelude::*;
use vstd::utf8::encode_utf8;

use crate::error::TableError;

verus! {

/// The smallest prefix value that a bucket stands for: the bytes `!!!!`.
pub const MIN: u32 = 555_819_297;

/// The largest prefix value that a bucket stands for: the bytes `~~~~`.
pub const MAX: u32 = 2_122_219_134;

/// The width of one bucket, in prefix values.
pub const PRIME: u32 = 55_579;

/// The number of buckets of every table.
pub const BUCKET_COUNT: usize = 28_184;

/// The first four bytes of `bytes`, read as a little-endian 32-bit integer.
pub open spec fn prefix_value(bytes: Seq<u8>) -> int
    recommends
        bytes.len() >= 4,
{
    bytes[0] as int + 0x100 * (bytes[1] as int) + 0x1_0000 * (bytes[2] as int) + 0x100_0000 * (
    bytes[3] as int)
}

/// The bucket of a key given by its bytes, where it has one.
pub open spec fn bucket_of(bytes: Seq<u8>) -> Option<int> {
    if bytes.len() >= 4 && MIN <= prefix_value(bytes) <= MAX {
        Some((prefix_value(bytes) - MIN) / (PRIME as int))
    } else {
        None
    }
}

/// The bucket of a key given by its characters: that of its UTF-8 encoding.
pub open spec fn key_bucket(key: Seq<char>) -> Option<int> {
    bucket_of(encode_utf8(key))
}

/// `BUCKET_COUNT` is the number of steps of width `PRIME` between `MIN` and
/// `MAX`, plus one.
pub proof fn law_bucket_count()
    ensures
        BUCKET_COUNT == (MAX - MIN) / (PRIME as int) + 1,
{
}

/// Every bucket index that the hash gives lies inside the table.
pub proof fn law_bucket_in_range(bytes: Seq<u8>)
    ensures
        bucket_of(bytes) matches Some(i) ==> 0 <= i < BUCKET_COUNT,
{
}

/// Every bucket index of a key lies inside the table.
pub proof fn lemma_key_bucket_in_range(key: Seq<char>)
    ensures
        key_bucket(key) matches Some(i) ==> 0 <= i < BUCKET_COUNT,
{
}

/// The hash of a key depends on its first four bytes only.
pub proof fn law_hash_reads_prefix(a: Seq<u8>, b: Seq<u8>)
    requires
        a.len() >= 4,
        b.len() >= 4,
        a.take(4) == b.take(4),
    ensures
        bucket_of(a) == bucket_of(b),
{
    assert(a[0] == a.take(4)[0] && a[1] == a.take(4)[1] && a[2] == a.take(4)[2] && a[3]
        == a.take(4)[3]);
    assert(b[0] == b.take(4)[0] && b[1] == b.take(4)[1] && b[2] == b.take(4)[2] && b[3]
        == b.take(4)[3]);
}

/// What `hash` returns for a key given by its characters.
pub open spec fn hash_result(key: Seq<char>) -> Result<u32, TableError> {
    match key_bucket(key) {
        Some(i) => Ok(i as u32),
        None => Err(TableError::OutOfRange),
    }
}

/// The bucket index of `key`, or `OutOfRange` where the key is shorter than
/// four bytes or its prefix lies outside `MIN..=MAX`.
pub fn hash(key: &str) -> (r: Result<u32, TableError>)
    ensures
        r == hash_result(key@),
{
    let bytes = key.as_bytes();
    if bytes.len() < 4 {
        return Err(TableError::OutOfRange);
    }
    let value: u32 = bytes[0] as u32 + 0x100 * (bytes[1] as u32) + 0x1_0000 * (bytes[2] as u32)
        + 0x100_0000 * (bytes[3] as u32);
    if value < MIN || value > MAX {
        return Err(TableError::OutOfRange);
    }
    Ok((value - MIN) / PRIME)
}

} // verus!
