//! Background work: running queued jobs, database migrations and the
//! listing scraper.
pub mod migrations;
pub mod process;
pub mod scrape_sm;
pub mod similars;
