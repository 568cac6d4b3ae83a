//! Usage of the root volume and the throughput of the block storage drivers.

use vstd::prelude::*;

use crate::models::disk::DiskInfo;
use crate::models::rate::Rate;

verus! {

/// `a - b`, or zero where `b` is the larger.
pub open spec fn diff(a: u64, b: u64) -> u64 {
    if a >= b {
        (a - b) as u64
    } else {
        0
    }
}

/// A rate's bytes are the growth of a counter: added to the earlier value they give
/// the later one, and a counter that went backwards grew by nothing.
pub proof fn lemma_diff_is_growth(later: u64, earlier: u64)
    ensures
        later >= earlier ==> diff(later, earlier) + earlier == later,
        later < earlier ==> diff(later, earlier) == 0,
        diff(later, later) == 0,
{
}

/// The block counts of a file system, as `statfs` reports them.
pub struct BlockCounts {
    pub blocks: u64,
    pub free: u64,
    pub available: u64,
    pub block_size: u64,
}

/// The counts on which `storage_usage` stays within 64 bits: no more free blocks
/// than blocks, and each byte total fits.
pub open spec fn storage_fits(b: BlockCounts) -> bool {
    &&& b.blocks * b.block_size <= u64::MAX
    &&& b.free <= b.blocks
    &&& (b.blocks - b.free) * b.block_size <= u64::MAX
    &&& b.available * b.block_size <= u64::MAX
}

/// Whether `storage_usage(Some(counts))` stays within 64 bits.
pub fn storage_fits_u64(counts: &BlockCounts) -> (r: bool)
    ensures
        r == storage_fits(*counts),
{
    if counts.free > counts.blocks {
        return false;
    }
    counts.blocks.checked_mul(counts.block_size).is_some() && (counts.blocks
        - counts.free).checked_mul(counts.block_size).is_some() && counts.available.checked_mul(
        counts.block_size,
    ).is_some()
}

/// Capacity, used and available bytes of a file system from its block counts
/// (`None` where they could not be read).
pub fn storage_usage(counts: Option<BlockCounts>) -> (r: Option<(u64, u64, u64)>)
    requires
        counts matches Some(b) ==> storage_fits(b),
    ensures
        counts is None ==> r is None,
        counts matches Some(b) ==> r == Some(
            (
                (b.blocks * b.block_size) as u64,
                ((b.blocks - b.free) * b.block_size) as u64,
                (b.available * b.block_size) as u64,
            ),
        ),
{
    match counts {
        None => None,
        Some(b) => Some(
            (b.blocks * b.block_size, (b.blocks - b.free) * b.block_size, b.available * b.block_size),
        ),
    }
}

/// Bytes read by the drivers that report statistics.
pub open spec fn read_sum(drivers: Seq<Option<(u64, u64)>>) -> int
    decreases drivers.len(),
{
    if drivers.len() == 0 {
        0
    } else {
        read_sum(drivers.drop_last()) + match drivers.last() {
            Some(s) => s.0 as int,
            None => 0,
        }
    }
}

/// Bytes written by the drivers that report statistics.
pub open spec fn write_sum(drivers: Seq<Option<(u64, u64)>>) -> int
    decreases drivers.len(),
{
    if drivers.len() == 0 {
        0
    } else {
        write_sum(drivers.drop_last()) + match drivers.last() {
            Some(s) => s.1 as int,
            None => 0,
        }
    }
}

/// Another driver adds its read and write counters to the totals when it reports
/// statistics, and nothing otherwise.
pub proof fn lemma_driver_adds_its_bytes(d: Seq<Option<(u64, u64)>>, e: Option<(u64, u64)>)
    ensures
        read_sum(d.push(e)) == read_sum(d) + match e {
            Some(t) => t.0 as int,
            None => 0,
        },
        write_sum(d.push(e)) == write_sum(d) + match e {
            Some(t) => t.1 as int,
            None => 0,
        },
        read_sum(Seq::<Option<(u64, u64)>>::empty()) == 0,
        write_sum(Seq::<Option<(u64, u64)>>::empty()) == 0,
{
    assert(d.push(e).drop_last() =~= d);
}

proof fn lemma_io_sums_prefix(drivers: Seq<Option<(u64, u64)>>, n: int)
    requires
        0 <= n <= drivers.len(),
    ensures
        0 <= read_sum(drivers.take(n)) <= read_sum(drivers),
        0 <= write_sum(drivers.take(n)) <= write_sum(drivers),
    decreases drivers.len(),
{
    if n < drivers.len() {
        assert(drivers.drop_last().take(n) =~= drivers.take(n));
        lemma_io_sums_prefix(drivers.drop_last(), n);
    } else {
        assert(drivers.take(n) =~= drivers);
        if drivers.len() > 0 {
            lemma_io_sums_prefix(drivers.drop_last(), drivers.len() - 1);
            assert(drivers.drop_last().take(drivers.len() - 1) =~= drivers.drop_last());
        }
    }
}

/// The read and write byte totals of the drivers, each as an `Option`: `None`
/// where the sum does not fit in 64 bits.
fn checked_io_sums(drivers: &Vec<Option<(u64, u64)>>) -> (r: (Option<u64>, Option<u64>))
    ensures
        r.0 is Some <==> read_sum(drivers@) <= u64::MAX,
        r.1 is Some <==> write_sum(drivers@) <= u64::MAX,
        r.0 matches Some(x) ==> x == read_sum(drivers@),
        r.1 matches Some(x) ==> x == write_sum(drivers@),
{
    let mut read: Option<u64> = Some(0);
    let mut write: Option<u64> = Some(0);
    let mut i: usize = 0;
    while i < drivers.len()
        invariant
            i <= drivers.len(),
            read is Some <==> read_sum(drivers@.take(i as int)) <= u64::MAX,
            write is Some <==> write_sum(drivers@.take(i as int)) <= u64::MAX,
            read matches Some(x) ==> x == read_sum(drivers@.take(i as int)),
            write matches Some(x) ==> x == write_sum(drivers@.take(i as int)),
        decreases drivers.len() - i,
    {
        proof {
            assert(drivers@.take(i as int + 1).drop_last() =~= drivers@.take(i as int));
            lemma_io_sums_prefix(drivers@.take(i as int + 1), i as int);
        }
        let (r, w) = match drivers[i] {
            Some(s) => s,
            None => (0, 0),
        };
        read = match read {
            Some(x) => x.checked_add(r),
            None => None,
        };
        write = match write {
            Some(x) => x.checked_add(w),
            None => None,
        };
        i = i + 1;
    }
    proof {
        assert(drivers@.take(i as int) =~= drivers@);
    }
    (read, write)
}

/// Whether `io_totals(Some(drivers))` stays within 64 bits.
pub fn io_totals_fit(drivers: &Vec<Option<(u64, u64)>>) -> (r: bool)
    ensures
        r == (read_sum(drivers@) <= u64::MAX && write_sum(drivers@) <= u64::MAX),
{
    let (read, write) = checked_io_sums(drivers);
    read.is_some() && write.is_some()
}

/// Total bytes read and written by all block storage drivers. Each entry is a
/// driver's read and write counters, or `None` where it reports no statistics;
/// `drivers` is `None` where the drivers could not be listed. Totals that are both
/// zero count as no reading.
pub fn io_totals(drivers: Option<Vec<Option<(u64, u64)>>>) -> (r: Option<(u64, u64)>)
    requires
        drivers matches Some(d) ==> read_sum(d@) <= u64::MAX && write_sum(d@) <= u64::MAX,
    ensures
        drivers is None ==> r is None,
        drivers matches Some(d) ==> r == if read_sum(d@) == 0 && write_sum(d@) == 0 {
            None
        } else {
            Some((read_sum(d@) as u64, write_sum(d@) as u64))
        },
{
    match drivers {
        None => None,
        Some(d) => {
            let (read, write) = checked_io_sums(&d);
            let read = match read {
                Some(x) => x,
                None => 0,
            };
            let write = match write {
                Some(x) => x,
                None => 0,
            };
            if read == 0 && write == 0 {
                None
            } else {
                Some((read, write))
            }
        },
    }
}

/// Throughput of the storage drivers from successive byte totals.
pub struct DiskSampler {
    previous: Option<(u64, u64, u64)>,
}

impl DiskSampler {
    /// The read and write totals of the last reading and when it was taken, if any.
    pub closed spec fn baseline(&self) -> Option<(u64, u64, u64)> {
        self.previous
    }

    pub fn new() -> (s: Self)
        ensures
            s.baseline() is None,
    {
        DiskSampler { previous: None }
    }

    /// Takes a reading at time `now` (nanoseconds on a monotonic clock): the volume's
    /// capacity, used and available bytes (`None` where they could not be read) and
    /// the drivers' byte totals (`None` where they could not be read). Throughput is
    /// the growth of each total over the time since the last reading with totals, and
    /// zero where there is none.
    pub fn sample(&mut self, storage: Option<(u64, u64, u64)>, io: Option<(u64, u64)>, now: u64) -> (r:
        Option<DiskInfo>)
        ensures
            storage is None ==> r is None && final(self).baseline() == old(self).baseline(),
            storage matches Some(s) ==> (r matches Some(d) && d.capacity == s.0 && d.used == s.1
                && d.available == s.2),
            storage is Some ==> final(self).baseline() == match io {
                Some(t) => Some((t.0, t.1, now)),
                None => None,
            },
            storage is Some ==> (r matches Some(d) && match (old(self).baseline(), io) {
                (Some(p), Some(t)) => {
                    &&& d.read_rate.bytes == diff(t.0, p.0)
                    &&& d.write_rate.bytes == diff(t.1, p.1)
                    &&& d.read_rate.nanos == diff(now, p.2)
                    &&& d.write_rate.nanos == diff(now, p.2)
                },
                _ => {
                    &&& d.read_rate.bytes == 0
                    &&& d.write_rate.bytes == 0
                    &&& d.read_rate.nanos == 0
                    &&& d.write_rate.nanos == 0
                },
            }),
    {
        let (capacity, used, available) = match storage {
            None => {
                return None;
            },
            Some(s) => s,
        };
        let (read_rate, write_rate) = match (self.previous, io) {
            (Some((prev_read, prev_write, prev_at)), Some((read, write))) => {
                let elapsed = now.saturating_sub(prev_at);
                (
                    Rate { bytes: read.saturating_sub(prev_read), nanos: elapsed },
                    Rate { bytes: write.saturating_sub(prev_write), nanos: elapsed },
                )
            },
            _ => (Rate::zero(), Rate::zero()),
        };
        self.previous = match io {
            Some((read, write)) => Some((read, write, now)),
            None => None,
        };
        Some(DiskInfo { capacity, used, available, read_rate, write_rate })
    }
}

impl Default for DiskSampler {
    fn default() -> (s: Self)
        ensures
            s.baseline() is None,
    {
        Self::new()
    }
}

} // verus!
