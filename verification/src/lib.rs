//! Verified core of a service that moves BEC log records from Redis streams to Loki
//! and publishes service metrics to Mimir.
//!
//! The crate holds the data model, the configuration rules and every decision the
//! service takes; the surrounding program performs the network and file work.

pub mod text;
pub mod config;
pub mod name_map;
pub mod models;
pub mod loki_push;
pub mod redis_logs;
pub mod parsing;
pub mod metrics_core;
pub mod metrics;
