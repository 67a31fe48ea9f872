//! The record-keeping core of a package registry: crate records, versions,
//! owners and rights, download counters, listings, and the publish workflow.
//!
//! Every table lives in a [`registry::Registry`]; every operation states in its
//! contract what it returns and how it changes the tables.

pub mod audit;
pub mod clock;
pub mod downloads;
pub mod encode;
pub mod errors;
pub mod follows;
pub mod foreign;
pub mod laws;
pub mod listing;
pub mod model;
pub mod names;
pub mod owners;
pub mod publish;
pub mod ranking;
pub mod registry;
pub mod report;
pub mod store;
pub mod tags;
pub mod text;
pub mod validate;
pub mod versions;
