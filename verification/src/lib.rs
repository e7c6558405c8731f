//! Query building, HTML cleaning and request decisions of a coffee-listing
//! web service, with their contracts.
pub mod text;
pub mod models;
pub mod stamps;
pub mod services;
pub mod jobs;
pub mod routes;
pub mod configuration;
pub mod db;
