//! Core of a news-collection pipeline: pagination policy for provider fetches,
//! per-article processing, a batching sink with conflict-ignore persistence
//! semantics, and the two permit pools that bound concurrent work.

pub mod auth;
pub mod collect;
pub mod fetch;
pub mod http;
pub mod news;
pub mod newsdata;
pub mod sink;
pub mod storage;
pub mod store;
pub mod task;
pub mod workshop;

use vstd::prelude::*;

verus! {

/// Smallest number of batches that hold `k` records when each batch holds at
/// most `b` records: the ceiling of `k / b`.
pub open spec fn div_ceil(k: int, b: int) -> int {
    k / b + if k % b == 0 { 0int } else { 1int }
}

} // verus!
