//! The process list: which PIDs to query, CPU time deltas between samples, and the
//! decoding of the strings the kernel hands back.

use vstd::prelude::*;

use crate::models::process::ProcessInfo;
use crate::system::disk::diff;
use crate::ui::format::{decimal, decimal_string};

verus! {

broadcast use vstd::seq_lib::group_seq_properties;

/// The letter of a BSD process status: idle, running, sleeping, stopped, zombie.
pub open spec fn state_letter(status: u32) -> char {
    if status == 1 {
        'I'
    } else if status == 2 {
        'R'
    } else if status == 3 {
        'S'
    } else if status == 4 {
        'T'
    } else if status == 5 {
        'Z'
    } else {
        '?'
    }
}

pub fn state_char(status: u32) -> (c: char)
    ensures
        c == state_letter(status),
{
    match status {
        1 => 'I',
        2 => 'R',
        3 => 'S',
        4 => 'T',
        5 => 'Z',
        _ => '?',
    }
}

/// The PIDs worth querying from a PID listing: the kernel filled `bytes` bytes of
/// `pids` (`None` where it filled none or failed), and only positive PIDs name
/// processes.
pub fn pids_to_query(pids: &Vec<i32>, bytes: i32) -> (r: Option<Vec<i32>>)
    ensures
        bytes <= 0 ==> r is None,
        bytes > 0 ==> (r matches Some(v) && v@ == pids@.take(
            if (bytes / 4) as int <= pids@.len() {
                (bytes / 4) as int
            } else {
                pids@.len() as int
            },
        ).filter(|p: i32| p > 0)),
{
    if bytes <= 0 {
        return None;
    }
    let count = (bytes / 4) as usize;
    let n = if count <= pids.len() {
        count
    } else {
        pids.len()
    };
    let mut out: Vec<i32> = Vec::new();
    let mut i: usize = 0;
    while i < n
        invariant
            n <= pids@.len(),
            i <= n,
            out@ == pids@.take(i as int).filter(|p: i32| p > 0),
        decreases n - i,
    {
        proof {
            assert(pids@.take(i as int + 1) =~= pids@.take(i as int).push(pids@[i as int]));
            pids@.take(i as int).lemma_filter_push(pids@[i as int], |p: i32| p > 0);
        }
        if pids[i] > 0 {
            out.push(pids[i]);
        }
        i = i + 1;
    }
    Some(out)
}

/// The PIDs kept from a listing are positive, come from the filled part in order,
/// and include every positive PID there.
pub proof fn lemma_pids_kept(filled: Seq<i32>, kept: Seq<i32>)
    requires
        kept == filled.filter(|p: i32| p > 0),
    ensures
        forall|i: int| 0 <= i < kept.len() ==> #[trigger] kept[i] > 0,
        forall|k: int| 0 <= k < filled.len() && filled[k] > 0 ==> kept.contains(#[trigger] filled[k]),
        kept.len() <= filled.len(),
{
    filled.filter_lemma(|p: i32| p > 0);
}

/// The length of a NUL-terminated string held in the first `limit` bytes of `raw`:
/// the position of the first NUL, or `limit` where there is none.
pub fn nul_terminated_len(raw: &[u8], limit: usize) -> (r: usize)
    requires
        limit <= raw@.len(),
    ensures
        r <= limit,
        forall|i: int| 0 <= i < r ==> raw@[i] != 0,
        r < limit ==> raw@[r as int] == 0,
{
    let mut i: usize = 0;
    while i < limit && raw[i] != 0
        invariant
            i <= limit,
            limit <= raw@.len(),
            forall|j: int| 0 <= j < i ==> raw@[j] != 0,
        decreases limit - i,
    {
        i = i + 1;
    }
    i
}

/// The length of the executable path in `buf`, where the kernel reported `len`
/// bytes of it: `None` where it reported none, else the bytes before the first NUL
/// among them.
pub fn path_len(buf: &[u8], len: i32) -> (r: Option<usize>)
    requires
        len <= buf@.len(),
    ensures
        len <= 0 <==> r is None,
        r matches Some(e) ==> e <= len && (forall|i: int| 0 <= i < e ==> buf@[i] != 0) && (e < len
            ==> buf@[e as int] == 0),
{
    if len <= 0 {
        None
    } else {
        Some(nul_terminated_len(buf, len as usize))
    }
}

/// The name shown for a user: the account name where there is a non-empty one, else
/// the numeric user id.
pub fn user_name(name: Option<String>, uid: u32) -> (r: String)
    ensures
        r@ == match name {
            Some(n) if n@.len() > 0 => n@,
            _ => decimal(uid as nat),
        },
{
    match name {
        Some(n) => {
            if !n.as_str().is_empty() {
                n
            } else {
                decimal_string(uid as u64)
            }
        },
        None => decimal_string(uid as u64),
    }
}

/// The CPU time recorded for `pid` in a sample: the first record with that PID.
pub open spec fn recorded_time(records: Seq<(i32, u64)>, pid: i32) -> Option<u64>
    decreases records.len(),
{
    if records.len() == 0 {
        None
    } else if records[0].0 == pid {
        Some(records[0].1)
    } else {
        recorded_time(records.drop_first(), pid)
    }
}

/// CPU time a process used since the recorded sample: zero for a process not
/// recorded, and zero where its time went backwards.
pub open spec fn cpu_delta(records: Seq<(i32, u64)>, p: ProcessInfo) -> u64 {
    match recorded_time(records, p.pid) {
        Some(t) => diff(p.cpu_time, t),
        None => 0,
    }
}

/// The record a sample leaves for the next one: each process's PID and CPU time.
pub open spec fn records_of(processes: Seq<ProcessInfo>) -> Seq<(i32, u64)> {
    processes.map_values(|p: ProcessInfo| (p.pid, p.cpu_time))
}

/// The record a sample leaves holds, in order, each process's PID and its full CPU
/// time.
pub proof fn lemma_records_hold_full_times(v: Seq<ProcessInfo>)
    ensures
        records_of(v).len() == v.len(),
        forall|i: int| 0 <= i < v.len() ==> #[trigger] records_of(v)[i] == (v[i].pid, v[i].cpu_time),
{
}

/// The CPU time recorded for a PID is that of the first process of the sample with
/// that PID, and there is none where no process had it.
proof fn lemma_recorded_time_first(v: Seq<ProcessInfo>, pid: i32)
    ensures
        (forall|m: int| 0 <= m < v.len() ==> v[m].pid != pid) ==> recorded_time(records_of(v), pid)
            is None,
        forall|k: int|
            0 <= k < v.len() && v[k].pid == pid && (forall|m: int| 0 <= m < k ==> v[m].pid != pid)
                ==> recorded_time(records_of(v), pid) == Some(#[trigger] v[k].cpu_time),
    decreases v.len(),
{
    if v.len() > 0 {
        let rest = v.drop_first();
        assert(records_of(v).drop_first() =~= records_of(rest));
        lemma_recorded_time_first(rest, pid);
        assert forall|k: int|
            0 <= k < v.len() && v[k].pid == pid && (forall|m: int| 0 <= m < k ==> v[m].pid != pid)
                implies recorded_time(records_of(v), pid) == Some(#[trigger] v[k].cpu_time) by {
            if k > 0 {
                assert(v[0].pid != pid);
                assert(rest[k - 1] == v[k]);
                assert forall|m: int| 0 <= m < k - 1 implies rest[m].pid != pid by {
                    assert(rest[m] == v[m + 1]);
                }
            }
        }
        if forall|m: int| 0 <= m < v.len() ==> v[m].pid != pid {
            assert(v[0].pid != pid);
            assert forall|m: int| 0 <= m < rest.len() implies rest[m].pid != pid by {
                assert(rest[m] == v[m + 1]);
            }
        }
    }
}

/// The CPU time a process used since the previous sample `previous`: its CPU time
/// less that of the first process with its PID there, or zero where that is larger;
/// zero where no process had its PID.
pub proof fn lemma_delta_since_previous(previous: Seq<ProcessInfo>, p: ProcessInfo)
    ensures
        (forall|m: int| 0 <= m < previous.len() ==> previous[m].pid != p.pid) ==> cpu_delta(
            records_of(previous),
            p,
        ) == 0,
        forall|k: int|
            0 <= k < previous.len() && previous[k].pid == p.pid && (forall|m: int|
                0 <= m < k ==> previous[m].pid != p.pid) ==> cpu_delta(records_of(previous), p)
                == if p.cpu_time >= (#[trigger] previous[k]).cpu_time {
                p.cpu_time - previous[k].cpu_time
            } else {
                0
            },
{
    lemma_recorded_time_first(previous, p.pid);
    assert forall|k: int|
        0 <= k < previous.len() && previous[k].pid == p.pid && (forall|m: int|
            0 <= m < k ==> previous[m].pid != p.pid) implies cpu_delta(records_of(previous), p)
        == if p.cpu_time >= (#[trigger] previous[k]).cpu_time {
        p.cpu_time - previous[k].cpu_time
    } else {
        0
    } by {
        assert(recorded_time(records_of(previous), p.pid) == Some(previous[k].cpu_time));
    }
}

/// Sampling a list whose PIDs are distinct twice, each process reports no CPU time
/// used in between.
pub proof fn lemma_same_list_twice_is_idle(v: Seq<ProcessInfo>, i: int)
    requires
        0 <= i < v.len(),
        forall|a: int, b: int| 0 <= a < b < v.len() ==> v[a].pid != v[b].pid,
    ensures
        cpu_delta(records_of(v), v[i]) == 0,
{
    lemma_delta_since_previous(v, v[i]);
    assert(v[i] == v[i]);
    assert forall|m: int| 0 <= m < i implies v[m].pid != v[i].pid by {}
}

/// A sampled process list: the processes as read, the CPU time in nanoseconds each
/// used since the previous sample, and the nanoseconds since that sample (`None`
/// for the first sample, whose window counts as one second). The CPU usage of a
/// process in percent is `(delta / 10^9) / window_seconds * 100`.
pub struct ProcessSample {
    pub processes: Vec<ProcessInfo>,
    pub cpu_deltas: Vec<u64>,
    pub window: Option<u64>,
}

impl ProcessSample {
    /// The processes with their CPU usage set: `cpu[i]` is the bit pattern of the
    /// usage of process `i`.
    pub fn with_cpu(self, cpu: Vec<u64>) -> (r: Vec<ProcessInfo>)
        requires
            cpu@.len() == self.processes@.len(),
        ensures
            r@.len() == self.processes@.len(),
            forall|i: int|
                0 <= i < r@.len() ==> {
                    let (a, b) = (#[trigger] r@[i], self.processes@[i]);
                    &&& a.pid == b.pid
                    &&& a.name == b.name
                    &&& a.state == b.state
                    &&& a.threads == b.threads
                    &&& a.cpu_time == b.cpu_time
                    &&& a.memory == b.memory
                    &&& a.cpu == cpu@[i]
                },
    {
        let mut procs = self.processes;
        let ghost given = procs@;
        let mut i: usize = 0;
        while i < procs.len()
            invariant
                procs@.len() == given.len(),
                cpu@.len() == given.len(),
                i <= procs@.len(),
                forall|j: int|
                    0 <= j < procs@.len() ==> {
                        let (a, b) = (#[trigger] procs@[j], given[j]);
                        &&& a.pid == b.pid
                        &&& a.name == b.name
                        &&& a.state == b.state
                        &&& a.threads == b.threads
                        &&& a.cpu_time == b.cpu_time
                        &&& a.memory == b.memory
                        &&& j < i ==> a.cpu == cpu@[j]
                    },
            decreases procs.len() - i,
        {
            procs[i].cpu = cpu[i];
            i = i + 1;
        }
        procs
    }
}

/// CPU time deltas between successive process lists.
pub struct ProcessSampler {
    previous: Vec<(i32, u64)>,
    last_sample: Option<u64>,
}

impl ProcessSampler {
    /// The PID and CPU time of each process of the last sample.
    pub closed spec fn records(&self) -> Seq<(i32, u64)> {
        self.previous@
    }

    /// When the last sample was taken, if any.
    pub closed spec fn last_taken(&self) -> Option<u64> {
        self.last_sample
    }

    pub fn new() -> (s: Self)
        ensures
            s.records() == Seq::<(i32, u64)>::empty(),
            s.last_taken() is None,
    {
        ProcessSampler { previous: Vec::new(), last_sample: None }
    }

    fn recorded(&self, pid: i32) -> (r: Option<u64>)
        ensures
            r == recorded_time(self.records(), pid),
    {
        let mut i: usize = 0;
        while i < self.previous.len()
            invariant
                i <= self.previous@.len(),
                recorded_time(self.previous@, pid) == recorded_time(
                    self.previous@.skip(i as int),
                    pid,
                ),
            decreases self.previous.len() - i,
        {
            proof {
                assert(self.previous@.skip(i as int).drop_first() =~= self.previous@.skip(
                    i as int + 1,
                ));
            }
            let (p, t) = self.previous[i];
            if p == pid {
                return Some(t);
            }
            i = i + 1;
        }
        proof {
            assert(self.previous@.skip(i as int) =~= Seq::<(i32, u64)>::empty());
        }
        None
    }

    /// Takes a process list read at time `now` (nanoseconds on a monotonic clock;
    /// `None` where it could not be read, which changes nothing) and reports how much
    /// CPU time each process used since the previous list.
    pub fn sample(&mut self, procs: Option<Vec<ProcessInfo>>, now: u64) -> (r: Option<
        ProcessSample,
    >)
        ensures
            procs is None ==> r is None && final(self).records() == old(self).records()
                && final(self).last_taken() == old(self).last_taken(),
            procs matches Some(v) ==> final(self).records() == records_of(v@)
                && final(self).last_taken() == Some(now),
            procs matches Some(v) ==> final(self).records().len() == v@.len() && forall|i: int|
                0 <= i < v@.len() ==> #[trigger] final(self).records()[i] == (
                    v@[i].pid,
                    v@[i].cpu_time,
                ),
            procs matches Some(v) ==> (r matches Some(s) && s.processes@ == v@
                && s.cpu_deltas@.len() == v@.len() && (forall|i: int|
                0 <= i < v@.len() ==> #[trigger] s.cpu_deltas@[i] == cpu_delta(
                    old(self).records(),
                    v@[i],
                )) && s.window == match old(self).last_taken() {
                Some(t) => Some(diff(now, t)),
                None => None,
            }),
    {
        let procs = match procs {
            None => {
                return None;
            },
            Some(v) => v,
        };
        let window = match self.last_sample {
            Some(t) => Some(now.saturating_sub(t)),
            None => None,
        };
        let mut deltas: Vec<u64> = Vec::new();
        let mut records: Vec<(i32, u64)> = Vec::new();
        let mut i: usize = 0;
        while i < procs.len()
            invariant
                i <= procs@.len(),
                deltas@.len() == i,
                records@ == records_of(procs@.take(i as int)),
                forall|j: int|
                    0 <= j < i ==> #[trigger] deltas@[j] == cpu_delta(self.records(), procs@[j]),
            decreases procs.len() - i,
        {
            let p = &procs[i];
            let delta = match self.recorded(p.pid) {
                Some(t) => p.cpu_time.saturating_sub(t),
                None => 0,
            };
            deltas.push(delta);
            records.push((p.pid, p.cpu_time));
            proof {
                assert(procs@.take(i as int + 1) =~= procs@.take(i as int).push(procs@[i as int]));
                assert(records_of(procs@.take(i as int + 1)) =~= records_of(
                    procs@.take(i as int),
                ).push((procs@[i as int].pid, procs@[i as int].cpu_time)));
            }
            i = i + 1;
        }
        proof {
            assert(procs@.take(i as int) =~= procs@);
        }
        self.previous = records;
        self.last_sample = Some(now);
        Some(ProcessSample { processes: procs, cpu_deltas: deltas, window })
    }
}

impl Default for ProcessSampler {
    fn default() -> (s: Self)
        ensures
            s.records() == Seq::<(i32, u64)>::empty() && s.last_taken() is None,
    {
        Self::new()
    }
}

} // verus!
