//! The rules that the external-system adapters follow: key layouts, object
//! metadata, schedules and image-processing limits.

pub mod redis;
pub mod s3;
pub mod scheduler;
pub mod vips;
