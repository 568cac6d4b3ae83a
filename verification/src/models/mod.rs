pub mod cpu;
pub mod disk;
pub mod float_bits;
pub mod memory;
pub mod network;
pub mod process;
pub mod rate;
pub mod sort;
