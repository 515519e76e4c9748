//! A sharded credential table.
//!
//! Accounts are kept in a fixed array of buckets. The bucket of an account is
//! derived from the first four bytes of its username, so a lookup scans one
//! bucket instead of the whole table.
//!
//! - `hash`: the sharding hash and its constants.
//! - `validation`: the six rules for usernames and passwords.
//! - `account`, `database`: the records and the table that owns them.
//! - `model`, `laws`: the table as a mathematical value, and what is proved
//!   of its operations.
//! - `request`: requests as they arrive from a client.
//! - `random`, `benchmark`: random credentials for filling a table, and a
//!   record of a measurement.

pub mod account;
pub mod benchmark;
pub mod database;
pub mod error;
pub mod hash;
pub mod laws;
pub mod model;
pub mod random;
pub mod request;
pub mod validation;
