//! A metrics exporter core for repository statistics: configuration
//! parsing, an in-memory gauge registry with plaintext exposition,
//! and a polling state machine with retry and rate-limit backoff.

pub mod config;
pub mod fetch;
pub mod metrics;
pub mod num;
pub mod poller;
pub mod shared;
pub mod text;
