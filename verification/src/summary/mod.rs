pub mod auto_tag;
pub mod context;
pub mod file_export;
