//! Server registry and reconciliation control plane of a multi-protocol proxy.
//!
//! The registry keeps the running server instances converged with a desired
//! configuration set; the drain machine sequences graceful shutdown with a
//! two-stage escalation to force-quit.
pub mod config;
pub mod drain;
pub mod instance;
pub mod registry;
