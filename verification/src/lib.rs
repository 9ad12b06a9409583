//! The verified core of a meeting recorder: what it shows, decides and stores, apart from
//! the devices, files, databases and models that it works with.
pub mod audio;
pub mod cli;
pub mod clock;
pub mod database;
pub mod ids;
pub mod panic_log;
pub mod summary;
pub mod text;
