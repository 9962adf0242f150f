//! Use-case decisions: rendering an image, cleaning the cache, coalescing
//! identical builds.

pub mod cache_cleanup;
pub mod render_flow;
pub mod render_image;
pub mod single_flight;
