use vstd::prelude::*;

verus! {

/// A throughput: `bytes` transferred over `nanos` nanoseconds. Its value in bytes per
/// second is `bytes / (nanos / 10^9)`, and zero where `nanos` is zero.
pub struct Rate {
    pub bytes: u64,
    pub nanos: u64,
}

impl Rate {
    /// The rate that reads as zero.
    pub fn zero() -> (r: Rate)
        ensures
            r.bytes == 0,
            r.nanos == 0,
    {
        Rate { bytes: 0, nanos: 0 }
    }
}

} // verus!
