//! Pixtimize: ImageKit-compatible transform parsing, cache keys and the
//! decisions of the image pipeline.

pub mod error;
pub mod text;
pub mod api;
pub mod application;
pub mod config;
pub mod domain;
pub mod image_ops;
pub mod infrastructure;
