//! Core packet-handling and QoS state machine of an MQTT v5 broker.
//!
//! The broker keeps per-client session, connection, subscription and
//! in-flight-packet state in memory, interprets each inbound control packet,
//! and returns the reply packet the protocol demands.  Every cache operation
//! and every packet handler carries a contract describing exactly how the
//! state changes and which reply is produced.

pub mod ack_builder;
pub mod ack_manager;
pub mod decimal;
pub mod handler;
pub mod heartbeat_cache;
pub mod idempotency;
pub mod kvlist;
pub mod metadata_cache;
pub mod packet;
pub mod session;
pub mod storage;
pub mod store;
pub mod subscribe_cache;
pub mod topic_filter;
pub mod types;
