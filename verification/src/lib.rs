//! Multi-tenant vector-similarity store.
//!
//! Each tenant owns an append-only log of (embedding vector, payload) pairs
//! and an explicitly rebuilt nearest-neighbour index over a snapshot of that
//! log.  A registry maps tenant ids to tenant stores, and a three-tier access
//! control gate (owner, managers, allow-listed accessers) guards the
//! administrative operations.  A small messaging subsystem lets accounts
//! exchange direct messages grouped into connections.
//!
//! Embedding components and similarity scores are carried through this crate
//! as opaque 64-bit patterns; the numeric metric itself is computed by the
//! surrounding application, which hands ranked results back for resolution.

pub mod api;
pub mod comp;
pub mod config;
pub mod db;
pub mod errors;
pub mod ident;
pub mod index;
pub mod management;
pub mod migration;
pub mod msg;
