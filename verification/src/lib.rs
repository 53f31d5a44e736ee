//! Scraping engine for a ROM library: per-provider backoff, a completion
//! cache, the per-item metadata and guide tracks, and the session that folds
//! item outcomes into run counters.

pub mod backoff;
pub mod cache;
pub mod console;
pub mod gamelist;
pub mod guides;
pub mod json;
pub mod outside;
pub mod progress;
pub mod scanner;
pub mod scraper;
pub mod scraping;
pub mod server;
pub mod session;
pub mod storage;
pub mod text;

pub use guides::scrape_game_guides;
pub use progress::{
    progress_update, GameData, GameGuides, GameMetadata, ProgressUpdate, ScrapeStatus,
    ScrapingProgress,
};
pub use scraping::{scrape_game_metadata, ScrapingConfig};
pub use session::scrape;
