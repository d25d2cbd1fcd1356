//! Decision core of a coding-agent workspace server: workspace file transfer,
//! conversation titles, channel defaults, and the loop engine's phase taxonomy,
//! configuration and crash recovery.
pub mod channel_config;
pub mod error;
pub mod json;
pub mod loop_engine;
pub mod loop_phase;
pub mod number;
pub mod outside;
pub mod text;
pub mod text_laws;
pub mod title_gen;
pub mod workspace;
