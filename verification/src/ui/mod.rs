pub mod process_control;
pub mod checksum;
pub mod file_integrity;
pub mod dashboard;
