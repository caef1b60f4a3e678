//! Entities.
pub mod laws;
pub mod sight;
pub mod tracking;
