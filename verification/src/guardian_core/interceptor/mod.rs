pub mod process;
pub mod clipboard;
pub mod file_watch;
pub mod memory;
pub mod network;
