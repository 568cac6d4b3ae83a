//! CPU usage from successive readings of the per-core tick counters.

use vstd::prelude::*;

use crate::models::cpu::{usage, usage_fits, usage_matches, CpuCore, CpuSample, CpuUsage};


verus! {

/// Integers per core in the processor load array: user, system, idle and nice ticks.
pub const CPU_STATES: usize = 4;

/// The counters of core `i` in a processor load array, each integer widened to 64 bits
/// as `as` does (a negative one wraps around).
pub open spec fn core_in_load(info: Seq<i32>, i: int) -> CpuCore {
    CpuCore {
        user: info[4 * i] as u64,
        system: info[4 * i + 1] as u64,
        idle: info[4 * i + 2] as u64,
        nice: info[4 * i + 3] as u64,
    }
}

/// The tick counters of each core from the processor load array the kernel fills,
/// four integers per core in the order user, system, idle, nice.
pub fn sample_from_load(info: &Vec<i32>) -> (s: CpuSample)
    requires
        info@.len() % 4 == 0,
    ensures
        s@.len() == info@.len() / 4,
        forall|i: int| 0 <= i < s@.len() ==> #[trigger] s@[i] == core_in_load(info@, i),
{
    let len = info.len();
    let n = len / CPU_STATES;
    let mut cores: Vec<CpuCore> = Vec::new();
    let mut i: usize = 0;
    while i < n
        invariant
            len == info@.len(),
            n == info@.len() / 4,
            info@.len() % 4 == 0,
            i <= n,
            cores@.len() == i,
            forall|j: int| 0 <= j < i ==> #[trigger] cores@[j] == core_in_load(info@, j),
        decreases n - i,
    {
        assert(4 * i + 3 < info@.len()) by (nonlinear_arith)
            requires
                i < n,
                n == info@.len() / 4,
                info@.len() % 4 == 0,
        ;
        let base = 4 * i;
        cores.push(
            CpuCore {
                user: #[verifier::truncate] (info[base] as u64),
                system: #[verifier::truncate] (info[base + 1] as u64),
                idle: #[verifier::truncate] (info[base + 2] as u64),
                nice: #[verifier::truncate] (info[base + 3] as u64),
            },
        );
        i = i + 1;
    }
    CpuSample { cores }
}

/// Turns successive tick readings into usage: each reading is compared with the one
/// before it.
pub struct CpuSampler {
    previous: Option<CpuSample>,
}

impl CpuSampler {
    /// The reading the next one is compared with, if any.
    pub closed spec fn baseline(&self) -> Option<Seq<CpuCore>> {
        match self.previous {
            Some(p) => Some(p@),
            None => None,
        }
    }

    pub fn new() -> (s: Self)
        ensures
            s.baseline() is None,
    {
        CpuSampler { previous: None }
    }

    /// Whether comparing `current` with the baseline stays within 64 bits.
    pub open spec fn can_take(&self, current: Option<CpuSample>) -> bool {
        match (current, self.baseline()) {
            (Some(c), Some(p)) => usage_fits(p, c@),
            _ => true,
        }
    }

    /// Whether `sample(current)` stays within 64 bits.
    pub fn accepts(&self, current: &Option<CpuSample>) -> (b: bool)
        ensures
            b == self.can_take(*current),
    {
        match (&self.previous, current) {
            (Some(p), Some(c)) => crate::models::cpu::usage_fits_u64(p, c),
            _ => true,
        }
    }

    /// Takes a new reading (`None` where reading the counters failed). The first
    /// reading gives no usage; each later one gives the usage since the reading
    /// before it. A failed reading changes nothing.
    pub fn sample(&mut self, current: Option<CpuSample>) -> (r: Option<CpuUsage>)
        requires
            old(self).can_take(current),
        ensures
            current is None ==> r is None && final(self).baseline() == old(self).baseline(),
            current matches Some(c) ==> final(self).baseline() == Some(c@),
            current matches Some(c) ==> match old(self).baseline() {
                None => r is None,
                Some(p) => r matches Some(u) && usage_matches(p, c@, u),
            },
    {
        match current {
            None => None,
            Some(current) => {
                let result = match &self.previous {
                    Some(previous) => Some(usage(previous, &current)),
                    None => None,
                };
                self.previous = Some(current);
                result
            },
        }
    }
}

impl Default for CpuSampler {
    fn default() -> (s: Self)
        ensures
            s.baseline() is None,
    {
        Self::new()
    }
}

} // verus!
