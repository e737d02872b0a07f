//! Provisioning agent library for a fleet-managed edge device.
//!
//! The crate resolves a device identity and a WireGuard peer configuration
//! from local state or a remote control plane, renders the peer set into the
//! tunnel daemon's `.conf` text format, and drives the liveness heartbeat
//! that announces the device to its hub.

pub mod conf;
pub mod config;
pub mod embedded;
pub mod errors;
pub mod functions;
pub mod heartbeat;
pub mod models;
pub mod scan;
pub mod textutil;
pub mod wg;

pub use errors::NotSetError;
pub use errors::ValidationError;
