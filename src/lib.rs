//! Concurrent, bounded-memory streaming MD5 digests of files.
//!
//! The library holds the logic: the digest accumulator, the per-file hashing
//! task as a state machine driven by read events, and the collection of
//! per-file results in input order. Reading files, timing and threads are
//! done by the caller.
use vstd::prelude::*;

pub mod digest;
pub mod task;
pub mod results;

verus! {

} // verus!
