//! Storage rules: paths, saved configurations, activation records,
//! backups and imports.
pub mod configs;
pub mod import;
pub mod active;
pub mod detect;
pub mod paths;
pub mod atomic;
pub mod backup;
