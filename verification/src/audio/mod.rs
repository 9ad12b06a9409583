pub mod capture;
pub mod device_monitor;
pub mod devices;
pub mod recording_manager;
pub mod recovery;
