//! Core of a decibel-monitoring service: the ingestion and delivery pipeline.
//!
//! Inbound readings fan out to three independent sinks: a cache of the last
//! known state per device, a write-behind batching subsystem that persists
//! readings in bulk, and a per-device update coalescer drained on a fixed
//! tick toward a fan-out hub of observers.

pub mod reading;
pub mod cache;
pub mod queue;
pub mod batch;
pub mod numfmt;
pub mod sql;
pub mod coalesce;
pub mod hub;
pub mod broadcaster;
pub mod service;
pub mod token;
pub mod render;
pub mod migrate;
pub mod device_client;

pub use reading::Reading;
