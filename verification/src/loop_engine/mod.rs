//! The loop engine's configuration and crash recovery.
pub mod config_resolver;
pub mod error;
pub mod recovery;
