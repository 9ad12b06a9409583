pub mod args;
pub mod chain;
pub mod keyboard;
pub mod listing;
pub mod panel;
pub mod record;
pub mod session;
