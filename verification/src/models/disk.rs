use vstd::prelude::*;

use crate::models::rate::Rate;

verus! {

/// Usage of the root volume in bytes, and its read and write throughput.
pub struct DiskInfo {
    pub capacity: u64,
    pub used: u64,
    pub available: u64,
    pub read_rate: Rate,
    pub write_rate: Rate,
}

} // verus!
