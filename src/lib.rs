//! Storage-resource control layer: builds the argument lists handed to the
//! dataset tool, classifies what a run of it produced, and turns its columnar
//! listing back into typed records scoped to one pool.
pub mod client;
pub mod config;
pub mod listing;
pub mod runner;
pub mod server;
pub mod systemd;
pub mod text;
pub mod zfs;
