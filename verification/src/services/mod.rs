//! Page scraping and text tokenizing.
pub mod html;
pub mod open_ai;
pub mod scraper;
