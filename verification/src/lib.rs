//! Periodic scrape agent core: per-target scheduling arithmetic, chunked
//! content-addressed framing of captured payloads, and the newline-delimited
//! record encoding they are emitted in.

pub mod chunkify;
pub mod config;
pub mod encode;
pub mod result_processor;
pub mod scrape_target;
pub mod wire;

