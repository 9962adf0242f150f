//! What the HTTP layer sends: request parameters and response contents.

pub mod images;
pub mod response;
