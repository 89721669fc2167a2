//! An in-memory key-value store with sharded routing, request dispatch for a
//! GET/SET protocol, a command multiplexer state machine, and a minimal
//! cooperative executor model with a deadline timer.
pub mod store;
pub mod shard;
pub mod dispatch;
pub mod multiplexer;
pub mod executor;
pub mod protocol;
