use vstd::prelude::*;

verus! {

/// Memory figures in bytes.
#[derive(PartialEq, Eq, Structural)]
pub struct MemoryInfo {
    pub physical: u64,
    pub free: u64,
    pub active: u64,
    pub inactive: u64,
    pub wired: u64,
    pub compressed: u64,
    pub purgeable: u64,
    pub swap_total: u64,
    pub swap_used: u64,
}

impl MemoryInfo {
    /// Memory in use: active, wired and compressed pages.
    pub open spec fn spec_used(&self) -> int {
        self.active + self.wired + self.compressed
    }

    /// Memory the system may reclaim: inactive and purgeable pages.
    pub open spec fn spec_cached(&self) -> int {
        self.inactive + self.purgeable
    }

    pub fn used(&self) -> (r: u64)
        requires
            self.spec_used() <= u64::MAX,
        ensures
            r == self.spec_used(),
    {
        self.active + self.wired + self.compressed
    }

    /// Whether `used` and `cached` stay within 64 bits.
    pub fn sums_fit(&self) -> (r: bool)
        ensures
            r == (self.spec_used() <= u64::MAX && self.spec_cached() <= u64::MAX),
    {
        let used = match self.active.checked_add(self.wired) {
            Some(x) => x.checked_add(self.compressed).is_some(),
            None => false,
        };
        used && self.inactive.checked_add(self.purgeable).is_some()
    }

    pub fn cached(&self) -> (r: u64)
        requires
            self.spec_cached() <= u64::MAX,
        ensures
            r == self.spec_cached(),
    {
        self.inactive + self.purgeable
    }
}

} // verus!
