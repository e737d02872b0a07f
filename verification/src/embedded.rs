//! The first-boot agent's minimal configuration: a device identity read
//! from the agent's config file, and tunnel addressing lifted from the
//! tunnel daemon's config file.

pub mod config;
pub mod wg;
