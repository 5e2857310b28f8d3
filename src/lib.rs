//! Batch scoring of chess positions by external engines: the commands and
//! response parsing of the engine protocol, and the queue that hands
//! workloads to worker threads and collects their results.
use vstd::prelude::*;

pub mod engine;
pub mod task_queue;
pub mod text;

verus! {

} // verus!
