//! The answers of the handlers of the API.

pub mod directories;
pub mod games;
pub mod images;
pub mod scrape;
