//! A verified core for a network intrusion-detection and packet-replay node.
//!
//! The library covers the node's pure logic: wire codecs for the stored
//! column formats, the Ethernet/IP/transport frame parser, the priority-keyed
//! firewall engine, the in-memory packet buffer, the writer's chunking and
//! retry rules, and the reader's idempotent replay bookkeeping.  The
//! surrounding process (sockets, database round-trips, task spawning) lives
//! outside the library and hands it plain values.

pub mod analyzer;
pub mod buffer;
pub mod clock;
pub mod config;
pub mod db_service;
pub mod errors;
pub mod ethernet;
pub mod firewall;
pub mod firewall_service;
pub mod interface;
pub mod ip;
pub mod logger;
pub mod monitor;
pub mod reader;
pub mod repository;
pub mod sender;
pub mod tasks;
pub mod text;
pub mod transport;
pub mod types;
pub mod writer;

pub use types::{EtherType, IpProtocol, MacAddr};
