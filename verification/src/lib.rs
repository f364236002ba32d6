//! Verified data-access core for a restaurant place service.
//!
//! The crate models the layer between typed domain operations and a
//! relational store: an exact decimal stand-in for floating-point columns,
//! a generic JSON document model, the place normalizer, the row codec,
//! parameterized SQL statement builders, the repository operations over an
//! in-memory store model, and the bounded-retry connection accessor.

pub mod codec;
pub mod decimal;
pub mod errors;
pub mod json;
pub mod laws;
pub mod models;
pub mod normalize;
pub mod requests;
pub mod retry;
pub mod search;
pub mod seq_util;
pub mod sql;
pub mod store;
pub mod timestamp;
