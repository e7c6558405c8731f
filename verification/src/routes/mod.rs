//! The decisions behind the HTTP endpoints: which queries they run and how
//! they answer.
pub mod green_recs;
pub mod index;
pub mod jobs;
pub mod scrapes;
pub mod subscriptions;
