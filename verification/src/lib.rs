//! Core of a multi-tenant telemetry backend.
//!
//! Clients authenticate either as human operators (session tokens) or as
//! instrumented applications (per-project API keys), submit event and usage
//! data, and query aggregated metrics. This crate holds the verified core:
//! the credential codec, the identity resolver, the authorization policy,
//! the device registry, the event ingestion pipeline and the metric
//! aggregator, all working over an in-memory model of the persistence
//! store. HTTP plumbing, database drivers and other I/O live outside.

pub mod auth;
pub mod b64;
pub mod claims;
pub mod config;
pub mod devices;
pub mod errors;
pub mod events;
pub mod geo;
pub mod metrics;
pub mod projects;
pub mod roles;
pub mod shim;
pub mod store;
pub mod strutil;
pub mod timebucket;
pub mod tokens;
pub mod users;
