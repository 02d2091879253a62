pub mod network;
pub mod process_control;
pub mod quarantine;
pub mod whitelist;
pub mod dashboard;
pub mod config_file;
