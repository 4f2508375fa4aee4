//! RPC gateway logic for a partitioned, append-only log messaging backend.
//!
//! The crate holds the verified core of the gateway: configuration parsing,
//! the codec that turns raw record payloads into reply messages, the
//! production and consumption handlers, topic administration, and the fixed
//! replies of the unimplemented stub methods. Network transport and the
//! backend client calls live with the embedding application, which hands the
//! handlers plain values and receives the typed replies back.

pub mod admin;
pub mod codec;
pub mod config;
pub mod consume;
pub mod produce;
pub mod stubs;
