//! Networked synchronization layer of a leaderless, DAG-based BFT consensus
//! engine, modelled as verified state machines.
//!
//! The library holds the decision logic of the layer: the consensus state
//! store with idempotent block admission, the per-subscription send cursor
//! that streams own blocks in round order, the per-connection protocol state
//! machine, the dispatch table that keeps one connection task per peer, the
//! stop signal, and the synchronizer lifecycle that makes shutdown reclaim
//! exclusive ownership of the consensus state. The asynchronous plumbing that
//! drives these machines (sockets, timers, task spawning) lives outside the
//! library and feeds it plain values.

pub mod connection;
pub mod consensus;
pub mod data;
pub mod dispatch;
pub mod net_sync;
pub mod protocol;
pub mod send_task;
pub mod stop;
pub mod strings;
pub mod types;
