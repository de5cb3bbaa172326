//! Persistence and media-normalization pipeline for a dish-rating store.
//!
//! The library normalizes uploaded image bytes into a compact self-describing
//! stored representation, persists dishes and their append-only rating
//! history in a SQLite file, and reconstructs aggregated view objects on
//! read.

pub mod aggregate;
pub mod api;
pub mod codec;
pub mod records;
pub mod store;
pub mod upload;
