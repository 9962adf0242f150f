//! The business rules: transform strings, cache keys, cache entries and limits.

pub mod cache_entry;
pub mod digest;
pub mod dimension;
pub mod limits;
pub mod number;
pub mod transform;
