//! State synchronisation for a peer-to-peer multiplayer client.
//!
//! The crate holds the part of a game client that keeps remote players in
//! step with the local simulation: the fixed-layout wire record, the
//! per-tick publisher of the local player's state, the registry of remote
//! peers, the per-tick reconciliation of inbound records, and the decisions
//! of the background connection tasks.
//!
//! Real numbers never appear here. A 32-bit IEEE-754 value is carried as its
//! bit pattern in a `u32`; the order of such patterns is defined in
//! [`ieee`]. Arithmetic on them is left to the caller.

pub mod endian;
pub mod ieee;
pub mod wire;
pub mod message;
pub mod lobby;
pub mod channel;
pub mod publisher;
pub mod correction;
pub mod reconcile;
pub mod connection;
pub mod hierarchy;
