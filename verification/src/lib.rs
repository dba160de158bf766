//! Live synchronization gateway for a shared archery-equipment dataset.
//!
//! The crate tracks connected viewer sessions, interprets a typed
//! request/response/update protocol carried as JSON text frames, routes
//! requests to a storage abstraction, and turns storage change events into
//! broadcast updates.

pub mod message;
pub mod models;
pub mod registry;
pub mod decode;
pub mod bridge;
pub mod config;
pub mod controller;
pub mod hardware;
pub mod server;
pub mod dispatch;
pub mod encode;
pub mod roundtrip;
pub mod storage;
pub mod wire;
