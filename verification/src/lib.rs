//! A key-value oracle for metrics pushed by a trusted source: the latest
//! metric per key, a bounded history per key, and prices derived from
//! redemption rates.

pub mod contract;
pub mod denom;
pub mod error;
pub mod execute;
pub mod history;
pub mod laws;
pub mod msg;
pub mod outside;
pub mod query;
pub mod state;
pub mod store;
pub mod table;
pub mod text;
