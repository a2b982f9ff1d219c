//! The plugin system: plugin metadata and capabilities, event results,
//! configuration, message routing and native library naming.
pub mod hooks;
pub mod error;
pub mod api;
pub mod config;
pub mod event_bus;
pub mod native;
pub mod discovery;
