//! Filters vehicle records by a license-plate rule, fingerprints the matches
//! with SHA-256, orders them by plate and summarises the run.

pub mod digest;
pub mod error;
pub mod invocation;
pub mod json;
pub mod order;
pub mod plate;
pub mod report;
pub mod selection;
pub mod sorting;
pub mod text;
pub mod vehicle;
