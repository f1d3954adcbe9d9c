//! Planning and bookkeeping for a two-level sleeper fan-out: a total number of
//! sleeping threads is split into per-process batches, each process creates its
//! batch of sleepers with throttling and backoff, and the parent reaps its
//! worker processes.
//!
//! Everything here is pure decision logic; the forking, spawning, sleeping and
//! waiting are performed by the caller, which feeds the outcomes back in.

pub mod batching;
pub mod pool;
pub mod supervisor;
pub mod niceness;
pub mod arguments;
