//! A value together with the time that it took to compute.

pub use std::time::{Duration, SystemTime};

use vstd::prelude::*;

verus! {

/// The outcome of a measured computation.
#[derive(Debug)]
pub struct Benchmark<T> {
    /// What the computation returned.
    pub content: T,
    /// How long the computation took.
    pub elapsed: Duration,
}

} // verus!
