//! License lifecycle: issuing, activating, renewing and revoking software
//! licenses kept in a collection of records keyed by the license string.
//!
//! The crate states every rule of the lifecycle as a contract and proves the
//! code against it. Time and persistence faults enter as plain values, so
//! each decision is checked for every clock reading and every store outcome.

pub mod api;
pub mod clock;
pub mod db;
pub mod laws;
pub mod lifecycle;
pub mod models;
pub mod operations;
pub mod store;
