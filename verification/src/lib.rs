//! Self-update library for a desktop utility: remote version discovery,
//! multi-strategy remote file-size probing, progress-tracked streaming
//! download bookkeeping, artifact cleanup, and the install handoff state
//! machine.

pub mod artifacts;
pub mod auth;
pub mod config;
pub mod digits;
pub mod download;
pub mod format;
pub mod gitlog;
pub mod json;
pub mod lifecycle;
pub mod manifest;
pub mod request;
pub mod sizeprobe;
pub mod text;
pub mod version;
