//! Network throughput from the byte counters of the interfaces.

use vstd::prelude::*;

use crate::models::network::NetworkUsage;
use crate::models::rate::Rate;
use crate::system::disk::diff;

verus! {

/// One interface as listed: whether it is a link-layer entry, whether it is the
/// loopback, and its received and sent byte counters where it reports them.
pub struct InterfaceCounters {
    pub is_link: bool,
    pub is_loopback: bool,
    pub bytes: Option<(u32, u32)>,
}

/// Bytes received over the interfaces that count: link-layer entries, not the
/// loopback, with counters.
pub open spec fn received_sum(s: Seq<InterfaceCounters>) -> int
    decreases s.len(),
{
    if s.len() == 0 {
        0
    } else {
        received_sum(s.drop_last()) + match s.last().bytes {
            Some((r, _)) if s.last().is_link && !s.last().is_loopback => r as int,
            _ => 0,
        }
    }
}

/// Bytes sent over the interfaces that count (as for `received_sum`).
pub open spec fn sent_sum(s: Seq<InterfaceCounters>) -> int
    decreases s.len(),
{
    if s.len() == 0 {
        0
    } else {
        sent_sum(s.drop_last()) + match s.last().bytes {
            Some((_, t)) if s.last().is_link && !s.last().is_loopback => t as int,
            _ => 0,
        }
    }
}

/// Another interface adds its counters to the totals when it is a link-layer entry
/// other than the loopback that reports counters, and nothing otherwise.
pub proof fn lemma_interface_adds_its_bytes(s: Seq<InterfaceCounters>, e: InterfaceCounters)
    ensures
        e.is_link && !e.is_loopback && e.bytes is Some ==> received_sum(s.push(e)) == received_sum(
            s,
        ) + (e.bytes->0).0 && sent_sum(s.push(e)) == sent_sum(s) + (e.bytes->0).1,
        !(e.is_link && !e.is_loopback && e.bytes is Some) ==> received_sum(s.push(e))
            == received_sum(s) && sent_sum(s.push(e)) == sent_sum(s),
        received_sum(Seq::<InterfaceCounters>::empty()) == 0,
        sent_sum(Seq::<InterfaceCounters>::empty()) == 0,
{
    assert(s.push(e).drop_last() =~= s);
}

proof fn lemma_sums_prefix(s: Seq<InterfaceCounters>, n: int)
    requires
        0 <= n <= s.len(),
    ensures
        0 <= received_sum(s.take(n)) <= received_sum(s),
        0 <= sent_sum(s.take(n)) <= sent_sum(s),
    decreases s.len(),
{
    if n < s.len() {
        assert(s.drop_last().take(n) =~= s.take(n));
        lemma_sums_prefix(s.drop_last(), n);
    } else {
        assert(s.take(n) =~= s);
        if s.len() > 0 {
            lemma_sums_prefix(s.drop_last(), s.len() - 1);
            assert(s.drop_last().take(s.len() - 1) =~= s.drop_last());
        }
    }
}

fn checked_sums(ifaces: &Vec<InterfaceCounters>) -> (r: (Option<u64>, Option<u64>))
    ensures
        r.0 is Some <==> received_sum(ifaces@) <= u64::MAX,
        r.1 is Some <==> sent_sum(ifaces@) <= u64::MAX,
        r.0 matches Some(x) ==> x == received_sum(ifaces@),
        r.1 matches Some(x) ==> x == sent_sum(ifaces@),
{
    let mut rx: Option<u64> = Some(0);
    let mut tx: Option<u64> = Some(0);
    let mut i: usize = 0;
    while i < ifaces.len()
        invariant
            i <= ifaces.len(),
            rx is Some <==> received_sum(ifaces@.take(i as int)) <= u64::MAX,
            tx is Some <==> sent_sum(ifaces@.take(i as int)) <= u64::MAX,
            rx matches Some(x) ==> x == received_sum(ifaces@.take(i as int)),
            tx matches Some(x) ==> x == sent_sum(ifaces@.take(i as int)),
        decreases ifaces.len() - i,
    {
        proof {
            assert(ifaces@.take(i as int + 1).drop_last() =~= ifaces@.take(i as int));
            lemma_sums_prefix(ifaces@.take(i as int + 1), i as int);
        }
        let entry = &ifaces[i];
        let (r, t): (u64, u64) = if entry.is_link && !entry.is_loopback {
            match entry.bytes {
                Some((r, t)) => (r as u64, t as u64),
                None => (0, 0),
            }
        } else {
            (0, 0)
        };
        rx = match rx {
            Some(x) => x.checked_add(r),
            None => None,
        };
        tx = match tx {
            Some(x) => x.checked_add(t),
            None => None,
        };
        i = i + 1;
    }
    proof {
        assert(ifaces@.take(i as int) =~= ifaces@);
    }
    (rx, tx)
}

/// Whether `totals(Some(ifaces))` stays within 64 bits.
pub fn totals_fit(ifaces: &Vec<InterfaceCounters>) -> (r: bool)
    ensures
        r == (received_sum(ifaces@) <= u64::MAX && sent_sum(ifaces@) <= u64::MAX),
{
    let (rx, tx) = checked_sums(ifaces);
    rx.is_some() && tx.is_some()
}

/// Bytes received and sent over the interfaces that count (`ifaces` is `None` where
/// the interfaces could not be listed).
pub fn totals(ifaces: Option<Vec<InterfaceCounters>>) -> (r: Option<(u64, u64)>)
    requires
        ifaces matches Some(v) ==> received_sum(v@) <= u64::MAX && sent_sum(v@) <= u64::MAX,
    ensures
        ifaces is None ==> r is None,
        ifaces matches Some(v) ==> r == Some((received_sum(v@) as u64, sent_sum(v@) as u64)),
{
    match ifaces {
        None => None,
        Some(v) => {
            let (rx, tx) = checked_sums(&v);
            match (rx, tx) {
                (Some(rx), Some(tx)) => Some((rx, tx)),
                _ => None,
            }
        },
    }
}

/// Network throughput from successive byte totals.
pub struct NetworkSampler {
    previous: Option<(u64, u64, u64)>,
}

impl NetworkSampler {
    /// The received and sent totals of the last reading and when it was taken, if any.
    pub closed spec fn baseline(&self) -> Option<(u64, u64, u64)> {
        self.previous
    }

    pub fn new() -> (s: Self)
        ensures
            s.baseline() is None,
    {
        NetworkSampler { previous: None }
    }

    /// Takes a reading of the received and sent totals at time `now` (nanoseconds on a
    /// monotonic clock; `None` where the totals could not be read, which changes
    /// nothing). The first reading has zero throughput; each later one has the growth
    /// of each total over the time since the reading before it.
    pub fn sample(&mut self, totals: Option<(u64, u64)>, now: u64) -> (r: Option<NetworkUsage>)
        ensures
            totals is None ==> r is None && final(self).baseline() == old(self).baseline(),
            totals matches Some(t) ==> final(self).baseline() == Some((t.0, t.1, now)),
            totals matches Some(t) ==> (r matches Some(u) && u.total_downloaded == t.0
                && u.total_uploaded == t.1 && match old(self).baseline() {
                None => {
                    &&& u.download_rate.bytes == 0
                    &&& u.upload_rate.bytes == 0
                    &&& u.download_rate.nanos == 0
                    &&& u.upload_rate.nanos == 0
                },
                Some(p) => {
                    &&& u.download_rate.bytes == diff(t.0, p.0)
                    &&& u.upload_rate.bytes == diff(t.1, p.1)
                    &&& u.download_rate.nanos == diff(now, p.2)
                    &&& u.upload_rate.nanos == diff(now, p.2)
                },
            }),
    {
        let (rx, tx) = match totals {
            None => {
                return None;
            },
            Some(t) => t,
        };
        let usage = match self.previous {
            None => NetworkUsage {
                download_rate: Rate::zero(),
                upload_rate: Rate::zero(),
                total_downloaded: rx,
                total_uploaded: tx,
            },
            Some((prev_rx, prev_tx, prev_at)) => {
                let elapsed = now.saturating_sub(prev_at);
                NetworkUsage {
                    download_rate: Rate { bytes: rx.saturating_sub(prev_rx), nanos: elapsed },
                    upload_rate: Rate { bytes: tx.saturating_sub(prev_tx), nanos: elapsed },
                    total_downloaded: rx,
                    total_uploaded: tx,
                }
            },
        };
        self.previous = Some((rx, tx, now));
        Some(usage)
    }
}

impl Default for NetworkSampler {
    fn default() -> (s: Self)
        ensures
            s.baseline() is None,
    {
        Self::new()
    }
}

} // verus!
