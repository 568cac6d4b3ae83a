//! Memory figures from the virtual memory statistics of the host.

use vstd::prelude::*;

use crate::models::memory::MemoryInfo;

verus! {

/// Page counts of the virtual memory statistics and the page size in bytes.
pub struct VmStatistics {
    pub page_size: u64,
    pub free: u32,
    pub active: u32,
    pub inactive: u32,
    pub wired: u32,
    pub compressed: u32,
    pub purgeable: u32,
}

/// The statistics whose page counts convert to bytes within 64 bits.
pub open spec fn pages_fit(v: VmStatistics) -> bool {
    &&& v.free * v.page_size <= u64::MAX
    &&& v.active * v.page_size <= u64::MAX
    &&& v.inactive * v.page_size <= u64::MAX
    &&& v.wired * v.page_size <= u64::MAX
    &&& v.compressed * v.page_size <= u64::MAX
    &&& v.purgeable * v.page_size <= u64::MAX
}

/// Whether the page counts of `v` convert to bytes within 64 bits.
pub fn pages_fit_u64(v: &VmStatistics) -> (r: bool)
    ensures
        r == pages_fit(*v),
{
    (v.free as u64).checked_mul(v.page_size).is_some() && (v.active as u64).checked_mul(
        v.page_size,
    ).is_some() && (v.inactive as u64).checked_mul(v.page_size).is_some() && (
    v.wired as u64).checked_mul(v.page_size).is_some() && (v.compressed as u64).checked_mul(
        v.page_size,
    ).is_some() && (v.purgeable as u64).checked_mul(v.page_size).is_some()
}

/// Memory figures from the physical memory size, the virtual memory statistics and
/// the swap usage (total and used bytes); each is `None` where it could not be read.
/// Without the first two there is no reading; without swap usage, swap reads as zero.
pub fn sample(physical: Option<u64>, vm: Option<VmStatistics>, swap: Option<(u64, u64)>) -> (r:
    Option<MemoryInfo>)
    requires
        physical is Some ==> (vm matches Some(v) ==> pages_fit(v)),
    ensures
        (physical is None || vm is None) <==> r is None,
        r matches Some(m) ==> {
            let v = vm->0;
            &&& m.physical == physical->0
            &&& m.free == v.free * v.page_size
            &&& m.active == v.active * v.page_size
            &&& m.inactive == v.inactive * v.page_size
            &&& m.wired == v.wired * v.page_size
            &&& m.compressed == v.compressed * v.page_size
            &&& m.purgeable == v.purgeable * v.page_size
            &&& m.swap_total == match swap {
                Some(s) => s.0,
                None => 0,
            }
            &&& m.swap_used == match swap {
                Some(s) => s.1,
                None => 0,
            }
        },
{
    let physical = match physical {
        Some(p) => p,
        None => {
            return None;
        },
    };
    let v = match vm {
        Some(v) => v,
        None => {
            return None;
        },
    };
    let (swap_total, swap_used) = match swap {
        Some(s) => s,
        None => (0, 0),
    };
    let page = v.page_size;
    Some(
        MemoryInfo {
            physical,
            free: (v.free as u64) * page,
            active: (v.active as u64) * page,
            inactive: (v.inactive as u64) * page,
            wired: (v.wired as u64) * page,
            compressed: (v.compressed as u64) * page,
            purgeable: (v.purgeable as u64) * page,
            swap_total,
            swap_used,
        },
    )
}

} // verus!
