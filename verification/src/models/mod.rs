//! Row types and the SQL text that reads and writes them.
pub mod fast_embeds;
pub mod jobs;
pub mod scrape;
pub mod scrape_embeddings;
pub mod sm_scrape;
pub mod subscriptions;
pub mod utils;
