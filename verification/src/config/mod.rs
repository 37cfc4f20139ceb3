//! The opencode documents: JSONC parsing, merging and fingerprints.
pub mod merge;
pub mod jsonc;
pub mod fingerprint;

pub use fingerprint::fingerprint;
pub use merge::{build_oh_my_openagent, merge_opencode};
