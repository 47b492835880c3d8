//! Agent-side runtime for a distributed RDMA benchmark orchestrator.
//!
//! The library holds the verified core: the session descriptor and the
//! command line built from it, report normalization and storage, counter
//! sampling with per-second rate derivation, the fan-out routing of counter
//! snapshots to filtered subscribers, and the aggregator's in-memory
//! statistics table.  Process supervision, RPC transport and file reads
//! live outside the library and hand it plain values.

pub mod client;
pub mod collector;
pub mod command;
pub mod config;
pub mod connection_manager;
pub mod counter_monitor;
pub mod initiator;
pub mod monitor;
pub mod normalize;
pub mod queue;
pub mod server;
pub mod session;
pub mod stats_db;
pub mod stats_manager;
pub mod text;
pub mod web_server;
