//! Verified core of the Libretto package manager: platform description,
//! permissions, shells, processes, TLS configuration, plugin metadata and
//! event bus, repository metadata types, resolver building blocks and the
//! installation order of a resolution.
pub mod cpu;
pub mod text;
pub mod platform;
pub mod shell;
pub mod process;
pub mod error;
pub mod permissions;
pub mod io;
pub mod path;
pub mod fs;
pub mod signal;
pub mod tls;
pub mod temp;
pub mod plugin;
pub mod repository;
pub mod resolver;
pub mod resolution;
pub mod pubgrub;
