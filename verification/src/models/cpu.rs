use vstd::prelude::*;

verus! {

/// Cumulative tick counters of one core, as the kernel reports them.
pub struct CpuCore {
    pub user: u64,
    pub system: u64,
    pub idle: u64,
    pub nice: u64,
}

/// One reading of the tick counters of every core.
pub struct CpuSample {
    pub cores: Vec<CpuCore>,
}

impl View for CpuSample {
    type V = Seq<CpuCore>;

    open spec fn view(&self) -> Seq<CpuCore> {
        self.cores@
    }
}

/// Which aggregate of a core's counters is summed.
pub enum TickKind {
    /// User mode, nice included.
    User,
    System,
    Idle,
}

/// The ticks of one core that count towards `kind`.
pub open spec fn core_ticks(c: CpuCore, kind: TickKind) -> int {
    match kind {
        TickKind::User => c.user + c.nice,
        TickKind::System => c.system as int,
        TickKind::Idle => c.idle as int,
    }
}

/// Sum over the cores of their ticks of `kind`.
pub open spec fn ticks_sum(cores: Seq<CpuCore>, kind: TickKind) -> int
    decreases cores.len(),
{
    if cores.len() == 0 {
        0
    } else {
        ticks_sum(cores.drop_last(), kind) + core_ticks(cores.last(), kind)
    }
}

/// A prefix of the cores never holds more ticks than all of them.
pub proof fn lemma_ticks_sum_prefix(cores: Seq<CpuCore>, kind: TickKind, n: int)
    requires
        0 <= n <= cores.len(),
    ensures
        0 <= ticks_sum(cores.take(n), kind) <= ticks_sum(cores, kind),
    decreases cores.len(),
{
    if n < cores.len() {
        assert(cores.drop_last().take(n) =~= cores.take(n));
        lemma_ticks_sum_prefix(cores.drop_last(), kind, n);
    } else {
        assert(cores.take(n) =~= cores);
        lemma_ticks_sum_nonneg(cores, kind);
    }
}

pub proof fn lemma_ticks_sum_nonneg(cores: Seq<CpuCore>, kind: TickKind)
    ensures
        ticks_sum(cores, kind) >= 0,
    decreases cores.len(),
{
    if cores.len() > 0 {
        lemma_ticks_sum_nonneg(cores.drop_last(), kind);
    }
}

/// `a - b`, or zero where `b` is the larger.
pub open spec fn sat_sub(a: u64, b: u64) -> int {
    if a >= b {
        a - b
    } else {
        0
    }
}

/// Ticks a core was busy between two readings (user, system and nice).
pub open spec fn core_busy(a: CpuCore, b: CpuCore) -> int {
    sat_sub(b.user, a.user) + sat_sub(b.system, a.system) + sat_sub(b.nice, a.nice)
}

/// All ticks a core went through between two readings.
pub open spec fn core_total(a: CpuCore, b: CpuCore) -> int {
    core_busy(a, b) + sat_sub(b.idle, a.idle)
}

/// Ticks of `kind` that passed between two readings, over all cores.
pub open spec fn ticks_delta(previous: Seq<CpuCore>, current: Seq<CpuCore>, kind: TickKind) -> int {
    let (p, c) = (ticks_sum(previous, kind), ticks_sum(current, kind));
    if c >= p {
        c - p
    } else {
        0
    }
}

/// The inputs on which `usage` stays within 64 bits: every per-core total, every
/// aggregate of either reading and the grand total of the deltas fit.
pub open spec fn usage_fits(previous: Seq<CpuCore>, current: Seq<CpuCore>) -> bool {
    &&& forall|i: int|
        0 <= i < previous.len() && i < current.len() ==> #[trigger] core_total(
            previous[i],
            current[i],
        ) <= u64::MAX
    &&& ticks_sum(previous, TickKind::User) <= u64::MAX
    &&& ticks_sum(previous, TickKind::System) <= u64::MAX
    &&& ticks_sum(previous, TickKind::Idle) <= u64::MAX
    &&& ticks_sum(current, TickKind::User) <= u64::MAX
    &&& ticks_sum(current, TickKind::System) <= u64::MAX
    &&& ticks_sum(current, TickKind::Idle) <= u64::MAX
    &&& ticks_delta(previous, current, TickKind::User) + ticks_delta(
        previous,
        current,
        TickKind::System,
    ) + ticks_delta(previous, current, TickKind::Idle) <= u64::MAX
}

/// Busy and total ticks of one core between two readings; its usage is
/// `busy / total` as a percentage, or zero where no tick passed.
pub struct CoreUsage {
    pub busy: u64,
    pub total: u64,
}

/// The ticks that passed between two readings. The percentages shown are
/// `(user + system) / total`, `user / total`, `system / total` and `idle / total`,
/// each zero where `total` is zero.
pub struct CpuUsage {
    pub user: u64,
    pub system: u64,
    pub idle: u64,
    pub total: u64,
    pub cores: Vec<CoreUsage>,
}

/// What `usage` computes from two readings.
pub open spec fn usage_matches(previous: Seq<CpuCore>, current: Seq<CpuCore>, u: CpuUsage) -> bool {
    &&& u.user == ticks_delta(previous, current, TickKind::User)
    &&& u.system == ticks_delta(previous, current, TickKind::System)
    &&& u.idle == ticks_delta(previous, current, TickKind::Idle)
    &&& u.total == u.user + u.system + u.idle
    &&& u.cores@.len() == if previous.len() <= current.len() {
        previous.len()
    } else {
        current.len()
    }
    &&& forall|i: int|
        0 <= i < u.cores@.len() ==> {
            &&& #[trigger] u.cores@[i].busy == core_busy(previous[i], current[i])
            &&& u.cores@[i].total == core_total(previous[i], current[i])
        }
}

/// No share exceeds the whole: the busy ticks of each core are at most its total, and
/// user plus system ticks, and idle ticks, are at most the total, so every percentage
/// shown lies between zero and a hundred.
pub proof fn lemma_usage_within_total(previous: Seq<CpuCore>, current: Seq<CpuCore>, u: CpuUsage)
    requires
        usage_matches(previous, current, u),
    ensures
        u.user + u.system <= u.total,
        u.idle <= u.total,
        forall|i: int| 0 <= i < u.cores@.len() ==> #[trigger] u.cores@[i].busy <= u.cores@[i].total,
{
    assert forall|i: int| 0 <= i < u.cores@.len() implies #[trigger] u.cores@[i].busy
        <= u.cores@[i].total by {
        assert(u.cores@[i].busy == core_busy(previous[i], current[i]));
    }
}

/// Between two equal readings no tick passed: every figure is zero.
pub proof fn lemma_usage_of_same_reading(cores: Seq<CpuCore>, u: CpuUsage)
    requires
        usage_matches(cores, cores, u),
    ensures
        u.user == 0,
        u.system == 0,
        u.idle == 0,
        u.total == 0,
        u.cores@.len() == cores.len(),
        forall|i: int| 0 <= i < u.cores@.len() ==> #[trigger] u.cores@[i].total == 0,
{
    assert forall|i: int| 0 <= i < u.cores@.len() implies #[trigger] u.cores@[i].total == 0 by {
        assert(u.cores@[i].busy == core_busy(cores[i], cores[i]));
    }
}

impl CpuSample {
    /// The sum of the ticks of `kind`, or `None` where it does not fit in 64 bits.
    pub fn checked_ticks(&self, kind: TickKind) -> (r: Option<u64>)
        ensures
            r is Some <==> ticks_sum(self@, kind) <= u64::MAX,
            r matches Some(t) ==> t == ticks_sum(self@, kind),
    {
        let mut total: u64 = 0;
        let mut i: usize = 0;
        while i < self.cores.len()
            invariant
                i <= self.cores.len(),
                total == ticks_sum(self@.take(i as int), kind),
            decreases self.cores.len() - i,
        {
            proof {
                assert(self@.take(i as int + 1).drop_last() =~= self@.take(i as int));
                lemma_ticks_sum_prefix(self@, kind, i as int + 1);
            }
            let c = &self.cores[i];
            let add: Option<u64> = match kind {
                TickKind::User => c.user.checked_add(c.nice),
                TickKind::System => Some(c.system),
                TickKind::Idle => Some(c.idle),
            };
            match add {
                Some(a) => match total.checked_add(a) {
                    Some(t) => {
                        total = t;
                    },
                    None => {
                        return None;
                    },
                },
                None => {
                    return None;
                },
            }
            i = i + 1;
        }
        proof {
            assert(self@.take(i as int) =~= self@);
        }
        Some(total)
    }

    /// Ticks spent in user mode (nice included) over all cores.
    pub fn user_ticks(&self) -> (r: u64)
        requires
            ticks_sum(self@, TickKind::User) <= u64::MAX,
        ensures
            r == ticks_sum(self@, TickKind::User),
    {
        match self.checked_ticks(TickKind::User) {
            Some(t) => t,
            None => 0,
        }
    }

    /// Ticks spent in the kernel over all cores.
    pub fn system_ticks(&self) -> (r: u64)
        requires
            ticks_sum(self@, TickKind::System) <= u64::MAX,
        ensures
            r == ticks_sum(self@, TickKind::System),
    {
        match self.checked_ticks(TickKind::System) {
            Some(t) => t,
            None => 0,
        }
    }

    /// Idle ticks over all cores.
    pub fn idle_ticks(&self) -> (r: u64)
        requires
            ticks_sum(self@, TickKind::Idle) <= u64::MAX,
        ensures
            r == ticks_sum(self@, TickKind::Idle),
    {
        match self.checked_ticks(TickKind::Idle) {
            Some(t) => t,
            None => 0,
        }
    }
}

/// Whether `usage(previous, current)` stays within 64 bits.
pub fn usage_fits_u64(previous: &CpuSample, current: &CpuSample) -> (b: bool)
    ensures
        b == usage_fits(previous@, current@),
{
    let n = if previous.cores.len() <= current.cores.len() {
        previous.cores.len()
    } else {
        current.cores.len()
    };
    let mut i: usize = 0;
    while i < n
        invariant
            n <= previous@.len(),
            n <= current@.len(),
            n == previous@.len() || n == current@.len(),
            i <= n,
            forall|j: int| 0 <= j < i ==> #[trigger] core_total(previous@[j], current@[j]) <= u64::MAX,
        decreases n - i,
    {
        let a = &previous.cores[i];
        let b = &current.cores[i];
        let busy = b.user.saturating_sub(a.user) as u128 + b.system.saturating_sub(a.system) as u128
            + b.nice.saturating_sub(a.nice) as u128;
        let total = busy + b.idle.saturating_sub(a.idle) as u128;
        if total > u64::MAX as u128 {
            assert(core_total(previous@[i as int], current@[i as int]) > u64::MAX);
            return false;
        }
        i = i + 1;
    }
    let pu = previous.checked_ticks(TickKind::User);
    let ps = previous.checked_ticks(TickKind::System);
    let pi = previous.checked_ticks(TickKind::Idle);
    let cu = current.checked_ticks(TickKind::User);
    let cs = current.checked_ticks(TickKind::System);
    let ci = current.checked_ticks(TickKind::Idle);
    match (pu, ps, pi, cu, cs, ci) {
        (Some(pu), Some(ps), Some(pi), Some(cu), Some(cs), Some(ci)) => {
            let sum = cu.saturating_sub(pu) as u128 + cs.saturating_sub(ps) as u128
                + ci.saturating_sub(pi) as u128;
            sum <= u64::MAX as u128
        },
        _ => false,
    }
}

/// The ticks that passed between two readings, per core and over all cores.
/// Cores are paired by position; extra cores of the longer reading are ignored.
pub fn usage(previous: &CpuSample, current: &CpuSample) -> (u: CpuUsage)
    requires
        usage_fits(previous@, current@),
    ensures
        usage_matches(previous@, current@, u),
{
    let n = if previous.cores.len() <= current.cores.len() {
        previous.cores.len()
    } else {
        current.cores.len()
    };
    let mut cores: Vec<CoreUsage> = Vec::new();
    let mut i: usize = 0;
    while i < n
        invariant
            n <= previous@.len(),
            n <= current@.len(),
            n == if previous@.len() <= current@.len() {
                previous@.len()
            } else {
                current@.len()
            },
            i <= n,
            usage_fits(previous@, current@),
            cores@.len() == i,
            forall|j: int|
                0 <= j < i ==> {
                    &&& #[trigger] cores@[j].busy == core_busy(previous@[j], current@[j])
                    &&& cores@[j].total == core_total(previous@[j], current@[j])
                },
        decreases n - i,
    {
        let a = &previous.cores[i];
        let b = &current.cores[i];
        assert(core_total(previous@[i as int], current@[i as int]) <= u64::MAX);
        let user = b.user.saturating_sub(a.user);
        let system = b.system.saturating_sub(a.system);
        let nice = b.nice.saturating_sub(a.nice);
        let idle = b.idle.saturating_sub(a.idle);
        let busy = user + system + nice;
        let total = busy + idle;
        cores.push(CoreUsage { busy, total });
        i = i + 1;
    }
    let user = current.user_ticks().saturating_sub(previous.user_ticks());
    let system = current.system_ticks().saturating_sub(previous.system_ticks());
    let idle = current.idle_ticks().saturating_sub(previous.idle_ticks());
    let total = user + system + idle;
    CpuUsage { user, system, idle, total, cores }
}


/// Between two readings whose counters only grew, a core was busy for the growth of
/// its user, system and nice counters, and went through that plus the growth of its
/// idle counter; counters that went backwards count as no ticks.
pub proof fn lemma_core_ticks_from_counters(a: CpuCore, b: CpuCore)
    ensures
        a.user <= b.user && a.system <= b.system && a.nice <= b.nice ==> core_busy(a, b) == (
        b.user - a.user) + (b.system - a.system) + (b.nice - a.nice),
        a.user <= b.user && a.system <= b.system && a.nice <= b.nice && a.idle <= b.idle
            ==> core_total(a, b) == (b.user - a.user) + (b.system - a.system) + (b.nice - a.nice)
            + (b.idle - a.idle),
        b.user <= a.user && b.system <= a.system && b.nice <= a.nice && b.idle <= a.idle
            ==> core_total(a, b) == 0,
        core_busy(a, b) >= 0,
        core_total(a, b) >= core_busy(a, b),
{
}

/// Adding a core to a reading adds its ticks: user and nice to the user ticks, its
/// system ticks and its idle ticks.
pub proof fn lemma_ticks_sum_push(cores: Seq<CpuCore>, c: CpuCore)
    ensures
        ticks_sum(cores.push(c), TickKind::User) == ticks_sum(cores, TickKind::User) + c.user
            + c.nice,
        ticks_sum(cores.push(c), TickKind::System) == ticks_sum(cores, TickKind::System)
            + c.system,
        ticks_sum(cores.push(c), TickKind::Idle) == ticks_sum(cores, TickKind::Idle) + c.idle,
        ticks_sum(Seq::<CpuCore>::empty(), TickKind::User) == 0,
{
    assert(cores.push(c).drop_last() =~= cores);
}

} // verus!
