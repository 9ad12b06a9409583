pub mod models;
pub mod query;
pub mod repositories;
