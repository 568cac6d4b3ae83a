pub mod cpu;
pub mod details;
pub mod disk;
pub mod format;
pub mod layout;
pub mod lines;
pub mod memory;
pub mod network;
