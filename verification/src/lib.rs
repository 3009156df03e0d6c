//! Adapter between a devp2p transport and a block-synchronisation scheduler.
//!
//! The crate holds the decisions of the adapter as verified functions on plain
//! values: the in-memory header store with its range walk, the registry of
//! sub-protocols, the projection of a peer's advertised capabilities, the
//! per-protocol inbound bridge and the outbound facade. The transport and the
//! scheduler's sink stay outside; they hand events in and carry actions out.

pub mod adapter;
pub mod bridge;
pub mod capability;
pub mod collaborators;
pub mod config;
pub mod header;
pub mod protocol;
pub mod store;
