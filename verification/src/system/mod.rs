pub mod cpu;
pub mod disk;
pub mod memory;
pub mod network;
pub mod processes;
