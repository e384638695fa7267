//! A bidirectional synchronization engine between a local directory tree and
//! a folder of a hosted drive, driven by a persistent log of object versions.
//!
//! The modules hold the engine's decisions; making requests, touching the
//! file system and waiting for events is left to the caller, which hands the
//! outcomes back as plain values.
pub mod auth;
pub mod config;
pub mod errors;
pub mod google_drive;
pub mod local;
pub mod log;
pub mod parse_url;
pub mod paths;
pub mod readline;
pub mod remote;
pub mod setup;
pub mod sync;
pub mod text;
pub mod types;
pub mod versions;
