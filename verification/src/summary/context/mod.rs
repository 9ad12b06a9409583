pub mod commands;
pub mod prompt_builder;
pub mod repository;
pub mod storage;
pub mod types;
