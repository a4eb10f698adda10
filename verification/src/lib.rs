//! Verified core of the Osmium ARTCC backend: request validation, roster and
//! statistics bookkeeping, API key encoding and file access decisions.

pub mod error;
pub mod text;
pub mod timestamp;
pub mod handlers;
pub mod jobs;
