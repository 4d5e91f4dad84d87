//! Multi-source ingestion core: field extraction from loosely structured JSON
//! records, a latest-value cache, a keyed catalog, a position log with its
//! movement trend, and the per-source polling schedule.

pub mod config;
pub mod domain;
pub mod engine;
pub mod json;
pub mod refresh;
pub mod repo;
pub mod services;
pub mod time;
