//! Reconciles snapshots of users, guilds, channels, messages and roles, as a
//! live feed delivers them, into a relational store keyed by entity id.
//!
//! The crate holds the rules: how a snapshot becomes a row, what each store
//! operation does to the tables, which operation a delivery leads to, and in
//! which order a full cache is written. Talking to the feed and to the
//! database is left to the program that links this library.

pub mod ingest;
pub mod laws;
pub mod logger;
pub mod mapper;
pub mod model;
pub mod notice;
pub mod reconciler;
pub mod snapshot;
pub mod store;
