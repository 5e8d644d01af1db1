//! A verified core for a paginated image-wall downloader: a cursor-driven
//! listing crawl filtered by an inclusive year/month window, a bounded
//! retry policy for page fetches and image downloads, per-item file
//! semantics under retry, and progress accounting.

pub mod clock;
pub mod config;
pub mod crawl;
pub mod dates;
pub mod fetch;
pub mod numbers;
pub mod paths;
pub mod producer;
pub mod progress;
pub mod types;
pub mod worker;
