//! Verified core of a switcher for oh-my-openagent / opencode provider configurations.
pub mod text;
pub mod json;
pub mod strmap;
pub mod timestamp;
pub mod storage;
pub mod error;
pub mod config;
pub mod pathstr;
pub mod order;
pub mod commands;

pub use error::AppError;
