pub mod configuration;
pub mod linux;
