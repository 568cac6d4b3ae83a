//! The state of the monitor and how it answers keys and refreshes.

use vstd::prelude::*;

use crate::models::cpu::{usage_matches, CpuSample, CpuUsage};
use crate::models::disk::DiskInfo;
use crate::models::float_bits::{float_eq, floats_equal};
use crate::models::memory::MemoryInfo;
use crate::models::network::NetworkUsage;
use crate::models::process::{ProcessDetails, ProcessInfo, SortBy};
use crate::models::sort::{
    is_sorted, lemma_sorting_sorted_is_identity, lemma_stable_sort_permutes, sort_processes,
    stable_sort_of,
};
use crate::system::cpu::CpuSampler;
use crate::system::disk::{diff, DiskSampler};
use crate::system::network::NetworkSampler;
use crate::system::processes::{ProcessSample, ProcessSampler};

verus! {

/// Nanoseconds between two readings of the CPU counters.
pub const CPU_REFRESH: u64 = 500_000_000;

/// Nanoseconds between two readings of memory figures.
pub const MEMORY_REFRESH: u64 = 1_000_000_000;

/// Nanoseconds between two readings of the process list.
pub const PROCESS_REFRESH: u64 = 1_000_000_000;

/// Nanoseconds between two readings of the network counters.
pub const NETWORK_REFRESH: u64 = 1_000_000_000;

/// Nanoseconds between two readings of the disk figures.
pub const DISK_REFRESH: u64 = 1_000_000_000;

/// A key press, as far as the monitor tells keys apart.
#[derive(Clone, Copy)]
pub enum Key {
    Char(char),
    Up,
    Down,
    Enter,
    Esc,
    Other,
}

/// What the caller is to do after a key.
#[derive(PartialEq, Eq, Structural)]
pub enum Action {
    Nothing,
    /// Send SIGTERM to this process.
    Kill(i32),
    /// Read the details of this process and hand them to `open_details`.
    OpenDetails(i32),
}

/// What the terminal reports while the monitor waits: a key press, a resize, or a
/// tick when nothing happened within the tick rate.
pub enum Event {
    Key(Key),
    Resize,
    Tick,
}

/// Whether the screen is to be drawn again after `event`, when a drawing was already
/// `pending`: a key or a resize always ask for one; a tick only when its refresh
/// `updated` something shown.
pub fn redraw_after(pending: bool, event: &Event, updated: bool) -> (r: bool)
    ensures
        r == (pending || match event {
            Event::Tick => updated,
            _ => true,
        }),
{
    match event {
        Event::Tick => pending || updated,
        _ => true,
    }
}

/// What the screen shows: the list, or the details of one process, possibly with
/// the kill confirmation over them.
pub enum Screen {
    List,
    Details { details: ProcessDetails, confirm_kill: bool },
}

/// Which readings are due at a given time.
pub struct Due {
    pub cpu: bool,
    pub memory: bool,
    pub network: bool,
    pub disk: bool,
    pub processes: bool,
}

/// The readings taken for a refresh; each is `None` where it was not taken or
/// could not be read. `storage` is the capacity, used and available bytes of the
/// root volume, `io` the drivers' read and write totals, `network` the received and
/// sent totals; `processes` is the sampled list with CPU usage set.
pub struct Readings {
    pub cpu: Option<CpuSample>,
    pub memory: Option<MemoryInfo>,
    pub network: Option<(u64, u64)>,
    pub storage: Option<(u64, u64, u64)>,
    pub io: Option<(u64, u64)>,
    pub processes: Option<Vec<ProcessInfo>>,
}

/// The part of the state that keys act on.
pub struct UiState {
    pub quitting: bool,
    pub list: Seq<ProcessInfo>,
    pub selection: int,
    pub sort_by: SortBy,
    pub view: Screen,
    /// The process whose details were asked for by the last key, if any.
    pub requested: Option<i32>,
}

/// The selection points into the list, or is zero when the list is empty, and the
/// list is short enough for signed indices.
pub open spec fn ui_wf(s: UiState) -> bool {
    &&& s.list.len() <= isize::MAX
    &&& s.list.len() == 0 ==> s.selection == 0
    &&& s.list.len() > 0 ==> 0 <= s.selection < s.list.len()
}

/// The selection moved by `delta`, clamped to the list; unchanged on an empty list.
pub open spec fn moved(sel: int, delta: int, len: int) -> int {
    if len == 0 {
        sel
    } else if sel + delta < 0 {
        0
    } else if sel + delta > len - 1 {
        len - 1
    } else {
        sel + delta
    }
}

/// The selection kept within a list of `len` processes.
pub open spec fn clamped(sel: int, len: int) -> int {
    if len == 0 {
        0
    } else if sel <= len - 1 {
        sel
    } else {
        len - 1
    }
}

/// The order a sort key selects in the list.
pub open spec fn sort_for(c: char) -> Option<SortBy> {
    if c == 'c' {
        Some(SortBy::Cpu)
    } else if c == 'm' {
        Some(SortBy::Memory)
    } else if c == 'p' {
        Some(SortBy::Pid)
    } else if c == 'a' {
        Some(SortBy::Name)
    } else {
        None
    }
}

/// The state `t` and action `a` that key `key` leads to from `s`.
///
/// In the list: `q` or Esc quits; Up or `k` and Down or `j` move the selection by
/// one, clamped; `c`, `m`, `p`, `a` order the list by CPU, memory, PID or name and
/// clamp the selection; Enter asks for the details of the selected process.
/// In the details: `b` or Esc go back to the list; `k` asks to confirm a kill; `q`
/// quits. In the confirmation: `y` kills the process and goes back to the list; `n`,
/// `b` or Esc go back to the details; `q` quits. Every other key does nothing.
pub open spec fn key_step_view(s: UiState, key: Key, t: UiState, a: Action) -> bool {
    match s.view {
        Screen::Details { details, confirm_kill } => {
            &&& t.list == s.list
            &&& t.selection == s.selection
            &&& t.sort_by == s.sort_by
            &&& if confirm_kill {
                match key {
                    Key::Char(c) => if c == 'y' {
                        t.view == Screen::List && t.quitting == s.quitting && a == Action::Kill(
                            details.pid,
                        )
                    } else if c == 'n' || c == 'b' {
                        t.view == (Screen::Details { details, confirm_kill: false }) && t.quitting
                            == s.quitting && a == Action::Nothing
                    } else if c == 'q' {
                        t.view == s.view && t.quitting && a == Action::Nothing
                    } else {
                        t.view == s.view && t.quitting == s.quitting && a == Action::Nothing
                    },
                    Key::Esc => t.view == (Screen::Details { details, confirm_kill: false })
                        && t.quitting == s.quitting && a == Action::Nothing,
                    _ => t.view == s.view && t.quitting == s.quitting && a == Action::Nothing,
                }
            } else {
                &&& a == Action::Nothing
                &&& match key {
                    Key::Char(c) => if c == 'b' {
                        t.view == Screen::List && t.quitting == s.quitting
                    } else if c == 'k' {
                        t.view == (Screen::Details { details, confirm_kill: true }) && t.quitting
                            == s.quitting
                    } else if c == 'q' {
                        t.view == s.view && t.quitting
                    } else {
                        t.view == s.view && t.quitting == s.quitting
                    },
                    Key::Esc => t.view == Screen::List && t.quitting == s.quitting,
                    _ => t.view == s.view && t.quitting == s.quitting,
                }
            }
        },
        Screen::List => {
            let len = s.list.len() as int;
            let unchanged = t.list == s.list && t.selection == s.selection && t.sort_by
                == s.sort_by;
            &&& t.view == Screen::List
            &&& match key {
                Key::Esc => unchanged && t.quitting && a == Action::Nothing,
                Key::Up => unchanged_but_selection(s, t) && t.selection == moved(
                    s.selection,
                    -1,
                    len,
                ) && a == Action::Nothing,
                Key::Down => unchanged_but_selection(s, t) && t.selection == moved(
                    s.selection,
                    1,
                    len,
                ) && a == Action::Nothing,
                Key::Enter => unchanged && t.quitting == s.quitting && a == if s.selection < len {
                    Action::OpenDetails(s.list[s.selection].pid)
                } else {
                    Action::Nothing
                },
                Key::Char(c) => if c == 'q' {
                    unchanged && t.quitting && a == Action::Nothing
                } else if c == 'k' {
                    unchanged_but_selection(s, t) && t.selection == moved(s.selection, -1, len) && a
                        == Action::Nothing
                } else if c == 'j' {
                    unchanged_but_selection(s, t) && t.selection == moved(s.selection, 1, len) && a
                        == Action::Nothing
                } else if sort_for(c) is Some {
                    &&& t.quitting == s.quitting
                    &&& t.sort_by == sort_for(c)->0
                    &&& stable_sort_of(s.list, t.list, t.sort_by)
                    &&& t.selection == clamped(s.selection, len)
                    &&& a == Action::Nothing
                } else {
                    unchanged && t.quitting == s.quitting && a == Action::Nothing
                },
                Key::Other => unchanged && t.quitting == s.quitting && a == Action::Nothing,
            }
        },
    }
}

/// The details request a key leaves: the process it asks details for, if it does.
pub open spec fn requested_by(a: Action) -> Option<i32> {
    match a {
        Action::OpenDetails(pid) => Some(pid),
        _ => None,
    }
}

/// The state `t` and action `a` that key `key` leads to from `s` (see
/// `key_step_view`); the key also leaves the details request its action makes.
pub open spec fn key_step(s: UiState, key: Key, t: UiState, a: Action) -> bool {
    &&& key_step_view(s, key, t, a)
    &&& t.requested == requested_by(a)
}

/// Only the selection may differ between `s` and `t` (the view is checked apart).
pub open spec fn unchanged_but_selection(s: UiState, t: UiState) -> bool {
    t.list == s.list && t.sort_by == s.sort_by && t.quitting == s.quitting
}

/// The details `d` with the CPU usage and memory of `p`.
pub open spec fn with_usage_of(d: ProcessDetails, p: ProcessInfo) -> ProcessDetails {
    ProcessDetails { cpu: p.cpu, memory: p.memory, ..d }
}

/// Whether details `fetched` answer the request of `s`: the list is shown, details
/// were asked for the selected process, and those were read.
pub open spec fn answers_request(s: UiState, fetched: Option<ProcessDetails>) -> bool {
    &&& s.view == Screen::List
    &&& 0 <= s.selection < s.list.len()
    &&& s.requested == Some(s.list[s.selection].pid)
    &&& fetched matches Some(d) && d.pid == s.list[s.selection].pid
}

/// The state `t` after fetching `fetched`: where they answer the request, the details
/// are shown with the selected process's CPU usage and memory; otherwise nothing is
/// shown anew. Either way the request is spent.
pub open spec fn open_step(s: UiState, fetched: Option<ProcessDetails>, t: UiState) -> bool {
    &&& t.list == s.list
    &&& t.selection == s.selection
    &&& t.sort_by == s.sort_by
    &&& t.quitting == s.quitting
    &&& t.requested is None
    &&& t.view == if answers_request(s, fetched) {
        Screen::Details {
            details: with_usage_of(fetched->0, s.list[s.selection]),
            confirm_kill: false,
        }
    } else {
        s.view
    }
}

/// The first process of `s` with PID `pid`.
pub open spec fn first_with_pid(s: Seq<ProcessInfo>, pid: i32) -> Option<ProcessInfo>
    decreases s.len(),
{
    if s.len() == 0 {
        None
    } else if s[0].pid == pid {
        Some(s[0])
    } else {
        first_with_pid(s.drop_first(), pid)
    }
}

/// The view once the list is `list`: shown details take the CPU usage and memory of
/// the first listed process with their PID where either differs; the flag says
/// whether they did.
pub open spec fn view_after_list(v: Screen, list: Seq<ProcessInfo>) -> (Screen, bool) {
    match v {
        Screen::Details { details, confirm_kill } => match first_with_pid(list, details.pid) {
            Some(p) => if !float_eq(details.cpu, p.cpu) || details.memory != p.memory {
                (Screen::Details { details: with_usage_of(details, p), confirm_kill }, true)
            } else {
                (v, false)
            },
            None => (v, false),
        },
        Screen::List => (v, false),
    }
}

/// What a refresh may do to the part of the state keys act on: the list, the
/// selection and the figures of shown details may change; whether the monitor is
/// quitting, the order, the request, and which details are shown and whether the
/// confirmation is open stay.
pub open spec fn refresh_step(s: UiState, t: UiState) -> bool {
    &&& t.quitting == s.quitting
    &&& t.sort_by == s.sort_by
    &&& t.requested == s.requested
    &&& (t.view == s.view || t.view == view_after_list(s.view, t.list).0)
}

/// One step of the monitor as keys and readings drive it: a key press, details read
/// for the caller (as `open_details` takes them), or a refresh.
pub enum Step {
    Press(Key),
    Open(Option<ProcessDetails>),
    Refresh,
}

/// Whether `t` and `a` can follow `s` by `step`.
pub open spec fn step_ok(s: UiState, step: Step, t: UiState, a: Action) -> bool {
    match step {
        Step::Press(key) => key_step(s, key, t, a),
        Step::Open(fetched) => open_step(s, fetched, t) && a == Action::Nothing,
        Step::Refresh => refresh_step(s, t) && a == Action::Nothing,
    }
}

/// Whether `states` is a run of the monitor through `steps`, with `actions` what
/// each step asked the caller to do.
pub open spec fn is_run(states: Seq<UiState>, steps: Seq<Step>, actions: Seq<Action>) -> bool {
    &&& states.len() == steps.len() + 1
    &&& actions.len() == steps.len()
    &&& forall|i: int|
        0 <= i < steps.len() ==> #[trigger] step_ok(states[i], steps[i], states[i + 1], actions[i])
}

/// Step `j` of the run was Enter in the list, asking for the details of `pid`.
pub open spec fn entered_at(
    states: Seq<UiState>,
    steps: Seq<Step>,
    actions: Seq<Action>,
    j: int,
    pid: i32,
) -> bool {
    &&& 0 <= j < steps.len()
    &&& steps[j] == Step::Press(Key::Enter)
    &&& states[j].view == Screen::List
    &&& actions[j] == Action::OpenDetails(pid)
}

/// Step `k` of the run was `k` in the details of `pid`, asking to confirm a kill.
pub open spec fn confirm_asked_at(states: Seq<UiState>, steps: Seq<Step>, k: int, pid: i32) -> bool {
    &&& 0 <= k < steps.len()
    &&& steps[k] == Step::Press(Key::Char('k'))
    &&& states[k].view matches Screen::Details { details, confirm_kill } && !confirm_kill
        && details.pid == pid
}

/// The monitor: the last figures read, the samplers, the process list with its
/// order and selection, and what is shown. Times are nanoseconds on a monotonic clock.
pub struct App {
    should_quit: bool,
    cpu: CpuSampler,
    cpu_usage: Option<CpuUsage>,
    memory: Option<MemoryInfo>,
    last_cpu: u64,
    last_memory: u64,
    network: NetworkSampler,
    network_usage: Option<NetworkUsage>,
    last_network: u64,
    disk: DiskSampler,
    disk_info: Option<DiskInfo>,
    last_disk: u64,
    processes: ProcessSampler,
    process_list: Vec<ProcessInfo>,
    selection: usize,
    sort_by: SortBy,
    last_processes: u64,
    view: Screen,
    requested: Option<i32>,
}

impl App {
    /// The part of the state that keys act on.
    pub closed spec fn ui(&self) -> UiState {
        UiState {
            quitting: self.should_quit,
            list: self.process_list@,
            selection: self.selection as int,
            sort_by: self.sort_by,
            view: self.view,
            requested: self.requested,
        }
    }

    pub closed spec fn wf(&self) -> bool {
        ui_wf(self.ui())
    }

    /// Everything but the part keys act on is as in `other`.
    pub closed spec fn same_readings(&self, other: &App) -> bool {
        &&& self.cpu == other.cpu
        &&& self.cpu_usage == other.cpu_usage
        &&& self.memory == other.memory
        &&& self.last_cpu == other.last_cpu
        &&& self.last_memory == other.last_memory
        &&& self.network == other.network
        &&& self.network_usage == other.network_usage
        &&& self.last_network == other.last_network
        &&& self.disk == other.disk
        &&& self.disk_info == other.disk_info
        &&& self.last_disk == other.last_disk
        &&& self.processes == other.processes
        &&& self.last_processes == other.last_processes
    }

    /// A monitor started at time `now`: nothing read yet, an empty list ordered by
    /// CPU, the list shown; every reading counts as taken at `now`.
    pub fn new(now: u64) -> (app: App)
        ensures
            app.wf(),
            app.figures() == (None::<CpuUsage>, None::<MemoryInfo>, None::<NetworkUsage>, None::<DiskInfo>),
            app.last_read() == (now, now, now, now, now),
            app.cpu_sampler().baseline() is None,
            app.network_sampler().baseline() is None,
            app.disk_sampler().baseline() is None,
            app.process_sampler().records() == Seq::<(i32, u64)>::empty(),
            app.process_sampler().last_taken() is None,
            app.ui() == (UiState {
                quitting: false,
                list: Seq::empty(),
                selection: 0,
                sort_by: SortBy::Cpu,
                view: Screen::List,
                requested: None,
            }),
    {
        let app = App {
            should_quit: false,
            cpu: CpuSampler::new(),
            cpu_usage: None,
            memory: None,
            last_cpu: now,
            last_memory: now,
            network: NetworkSampler::new(),
            network_usage: None,
            last_network: now,
            disk: DiskSampler::new(),
            disk_info: None,
            last_disk: now,
            processes: ProcessSampler::new(),
            process_list: Vec::new(),
            selection: 0,
            sort_by: SortBy::Cpu,
            last_processes: now,
            view: Screen::List,
            requested: None,
        };
        proof {
            assert(app.ui().list =~= Seq::<ProcessInfo>::empty());
        }
        app
    }

    pub fn should_quit(&self) -> (r: bool)
        ensures
            r == self.ui().quitting,
    {
        self.should_quit
    }

    pub fn process_list(&self) -> (r: &Vec<ProcessInfo>)
        ensures
            r@ == self.ui().list,
    {
        &self.process_list
    }

    pub fn selection(&self) -> (r: usize)
        ensures
            r == self.ui().selection,
    {
        self.selection
    }

    pub fn sort_by(&self) -> (r: SortBy)
        ensures
            r == self.ui().sort_by,
    {
        self.sort_by
    }

    pub fn view(&self) -> (r: &Screen)
        ensures
            *r == self.ui().view,
    {
        &self.view
    }

    pub fn cpu_usage(&self) -> (r: &Option<CpuUsage>)
        ensures
            *r == self.figures().0,
    {
        &self.cpu_usage
    }

    pub fn memory(&self) -> (r: &Option<MemoryInfo>)
        ensures
            *r == self.figures().1,
    {
        &self.memory
    }

    pub fn network_usage(&self) -> (r: &Option<NetworkUsage>)
        ensures
            *r == self.figures().2,
    {
        &self.network_usage
    }

    pub fn disk_info(&self) -> (r: &Option<DiskInfo>)
        ensures
            *r == self.figures().3,
    {
        &self.disk_info
    }

    fn move_selection(&mut self, delta: isize)
        requires
            old(self).wf(),
            old(self).ui().list.len() > 0 ==> isize::MIN <= old(self).ui().selection + delta
                <= isize::MAX,
        ensures
            final(self).wf(),
            final(self).same_readings(&*old(self)),
            final(self).ui() == (UiState {
                selection: moved(old(self).ui().selection, delta as int, old(self).ui().list.len() as int),
                ..old(self).ui()
            }),
    {
        if self.process_list.len() == 0 {
            return;
        }
        let len = self.process_list.len() as isize;
        let next = self.selection as isize + delta;
        let clamped: isize = if next < 0 {
            0
        } else if next > len - 1 {
            len - 1
        } else {
            next
        };
        self.selection = clamped as usize;
    }

    fn clamp_selection(&mut self)
        requires
            old(self).process_list@.len() <= isize::MAX,
        ensures
            final(self).wf(),
            final(self).same_readings(&*old(self)),
            final(self).ui() == (UiState {
                selection: clamped(old(self).ui().selection, old(self).ui().list.len() as int),
                ..old(self).ui()
            }),
    {
        if self.process_list.len() == 0 {
            self.selection = 0;
        } else if self.selection > self.process_list.len() - 1 {
            self.selection = self.process_list.len() - 1;
        }
    }

    fn set_sort(&mut self, sort_by: SortBy)
        requires
            old(self).wf(),
        ensures
            final(self).wf(),
            final(self).same_readings(&*old(self)),
            final(self).ui().quitting == old(self).ui().quitting,
            final(self).ui().view == old(self).ui().view,
            final(self).ui().requested == old(self).ui().requested,
            final(self).ui().sort_by == sort_by,
            stable_sort_of(old(self).ui().list, final(self).ui().list, sort_by),
            final(self).ui().selection == clamped(
                old(self).ui().selection,
                old(self).ui().list.len() as int,
            ),
    {
        self.sort_by = sort_by;
        sort_processes(&mut self.process_list, sort_by);
        self.clamp_selection();
    }

    /// Answers a key; the action says what the caller is to do (see `key_step`).
    pub fn on_key(&mut self, key: Key) -> (a: Action)
        requires
            old(self).wf(),
        ensures
            final(self).wf(),
            final(self).same_readings(&*old(self)),
            key_step(old(self).ui(), key, final(self).ui(), a),
    {
        let (in_details, in_confirm) = match &self.view {
            Screen::Details { confirm_kill, .. } => (true, *confirm_kill),
            Screen::List => (false, false),
        };
        let a = if in_confirm {
            self.on_key_confirm(key)
        } else if in_details {
            self.on_key_details(key)
        } else {
            self.on_key_list(key)
        };
        self.requested = match a {
            Action::OpenDetails(pid) => Some(pid),
            _ => None,
        };
        a
    }

    fn on_key_list(&mut self, key: Key) -> (a: Action)
        requires
            old(self).wf(),
            old(self).ui().view is List,
        ensures
            final(self).wf(),
            final(self).same_readings(&*old(self)),
            key_step_view(old(self).ui(), key, final(self).ui(), a),
            final(self).ui().requested == old(self).ui().requested,
    {
        match key {
            Key::Esc => {
                self.should_quit = true;
            },
            Key::Up => self.move_selection(-1),
            Key::Down => self.move_selection(1),
            Key::Enter => {
                if self.selection < self.process_list.len() {
                    return Action::OpenDetails(self.process_list[self.selection].pid);
                }
            },
            Key::Char(c) => {
                if c == 'q' {
                    self.should_quit = true;
                } else if c == 'k' {
                    self.move_selection(-1);
                } else if c == 'j' {
                    self.move_selection(1);
                } else if c == 'c' {
                    self.set_sort(SortBy::Cpu);
                } else if c == 'm' {
                    self.set_sort(SortBy::Memory);
                } else if c == 'p' {
                    self.set_sort(SortBy::Pid);
                } else if c == 'a' {
                    self.set_sort(SortBy::Name);
                }
            },
            Key::Other => {},
        }
        Action::Nothing
    }

    fn on_key_details(&mut self, key: Key) -> (a: Action)
        requires
            old(self).wf(),
            old(self).ui().view matches Screen::Details { confirm_kill, .. } && !confirm_kill,
        ensures
            final(self).wf(),
            final(self).same_readings(&*old(self)),
            key_step_view(old(self).ui(), key, final(self).ui(), a),
            final(self).ui().requested == old(self).ui().requested,
    {
        match key {
            Key::Esc => {
                self.view = Screen::List;
            },
            Key::Char(c) => {
                if c == 'b' {
                    self.view = Screen::List;
                } else if c == 'k' {
                    match &mut self.view {
                        Screen::Details { confirm_kill, .. } => {
                            *confirm_kill = true;
                        },
                        Screen::List => {},
                    }
                } else if c == 'q' {
                    self.should_quit = true;
                }
            },
            _ => {},
        }
        Action::Nothing
    }

    fn on_key_confirm(&mut self, key: Key) -> (a: Action)
        requires
            old(self).wf(),
            old(self).ui().view matches Screen::Details { confirm_kill, .. } && confirm_kill,
        ensures
            final(self).wf(),
            final(self).same_readings(&*old(self)),
            key_step_view(old(self).ui(), key, final(self).ui(), a),
            final(self).ui().requested == old(self).ui().requested,
    {
        let pid = match &self.view {
            Screen::Details { details, .. } => details.pid,
            Screen::List => {
                return Action::Nothing;
            },
        };
        let back = match key {
            Key::Char(c) => {
                if c == 'y' {
                    self.view = Screen::List;
                    return Action::Kill(pid);
                }
                if c == 'q' {
                    self.should_quit = true;
                }
                c == 'n' || c == 'b'
            },
            Key::Esc => true,
            _ => false,
        };
        if back {
            match &mut self.view {
                Screen::Details { confirm_kill, .. } => {
                    *confirm_kill = false;
                },
                Screen::List => {},
            }
        }
        Action::Nothing
    }

    /// Shows the details read for the selected process (`None` where they could not
    /// be read), with the CPU usage and memory it has in the list, where details of
    /// that process were asked for by the last key.
    pub fn open_details(&mut self, fetched: Option<ProcessDetails>)
        requires
            old(self).wf(),
        ensures
            final(self).wf(),
            final(self).same_readings(&*old(self)),
            open_step(old(self).ui(), fetched, final(self).ui()),
    {
        let requested = self.requested;
        self.requested = None;
        let in_list = match &self.view {
            Screen::List => true,
            Screen::Details { .. } => false,
        };
        if !in_list || self.selection >= self.process_list.len() {
            return;
        }
        let pid = self.process_list[self.selection].pid;
        match requested {
            Some(p) => {
                if p != pid {
                    return;
                }
            },
            None => {
                return;
            },
        }
        let mut details = match fetched {
            Some(d) => d,
            None => {
                return;
            },
        };
        if details.pid != pid {
            return;
        }
        details.cpu = self.process_list[self.selection].cpu;
        details.memory = self.process_list[self.selection].memory;
        self.view = Screen::Details { details, confirm_kill: false };
    }
}


/// Whether a reading taken at `last` is due again at `now`.
pub open spec fn due_at(last: u64, now: u64, period: u64) -> bool {
    diff(now, last) >= period
}

/// The first position of a process with PID `pid`.
fn find_pid(list: &Vec<ProcessInfo>, pid: i32) -> (r: Option<usize>)
    ensures
        r is None ==> first_with_pid(list@, pid) is None,
        r matches Some(i) ==> i < list@.len() && first_with_pid(list@, pid) == Some(list@[i as int]),
{
    let mut i: usize = 0;
    proof {
        assert(list@.skip(0) =~= list@);
    }
    while i < list.len()
        invariant
            i <= list@.len(),
            first_with_pid(list@, pid) == first_with_pid(list@.skip(i as int), pid),
        decreases list.len() - i,
    {
        proof {
            assert(list@.skip(i as int).drop_first() =~= list@.skip(i as int + 1));
        }
        if list[i].pid == pid {
            return Some(i);
        }
        i = i + 1;
    }
    proof {
        assert(list@.skip(i as int) =~= Seq::<ProcessInfo>::empty());
    }
    None
}

fn same_memory(a: &Option<MemoryInfo>, b: &Option<MemoryInfo>) -> (r: bool)
    ensures
        r == (*a == *b),
{
    match (a, b) {
        (Some(x), Some(y)) => *x == *y,
        (None, None) => true,
        _ => false,
    }
}

impl App {
    pub closed spec fn cpu_sampler(&self) -> CpuSampler {
        self.cpu
    }

    pub closed spec fn network_sampler(&self) -> NetworkSampler {
        self.network
    }

    pub closed spec fn disk_sampler(&self) -> DiskSampler {
        self.disk
    }

    pub closed spec fn process_sampler(&self) -> ProcessSampler {
        self.processes
    }

    /// The figures last read, as shown.
    pub closed spec fn figures(&self) -> (
        Option<CpuUsage>,
        Option<MemoryInfo>,
        Option<NetworkUsage>,
        Option<DiskInfo>,
    ) {
        (self.cpu_usage, self.memory, self.network_usage, self.disk_info)
    }

    /// When CPU, memory, network, disk and processes were last read.
    pub closed spec fn last_read(&self) -> (u64, u64, u64, u64, u64) {
        (self.last_cpu, self.last_memory, self.last_network, self.last_disk, self.last_processes)
    }

    /// Which readings are due at `now`: those whose period has passed since they were
    /// last taken.
    pub fn due(&self, now: u64) -> (d: Due)
        ensures
            d.cpu == due_at(self.last_read().0, now, CPU_REFRESH),
            d.memory == due_at(self.last_read().1, now, MEMORY_REFRESH),
            d.network == due_at(self.last_read().2, now, NETWORK_REFRESH),
            d.disk == due_at(self.last_read().3, now, DISK_REFRESH),
            d.processes == due_at(self.last_read().4, now, PROCESS_REFRESH),
    {
        Due {
            cpu: now.saturating_sub(self.last_cpu) >= CPU_REFRESH,
            memory: now.saturating_sub(self.last_memory) >= MEMORY_REFRESH,
            network: now.saturating_sub(self.last_network) >= NETWORK_REFRESH,
            disk: now.saturating_sub(self.last_disk) >= DISK_REFRESH,
            processes: now.saturating_sub(self.last_processes) >= PROCESS_REFRESH,
        }
    }

    /// Whether `refresh(now, readings)` stays within 64 bits and signed indices.
    pub open spec fn refresh_fits(&self, now: u64, readings: &Readings) -> bool {
        &&& due_at(self.last_read().0, now, CPU_REFRESH) ==> self.cpu_sampler().can_take(
            readings.cpu,
        )
        &&& readings.processes matches Some(v) ==> v@.len() <= isize::MAX
    }

    /// Whether `refresh(now, readings)` stays within 64 bits and signed indices.
    pub fn accepts(&self, now: u64, readings: &Readings) -> (r: bool)
        ensures
            r == self.refresh_fits(now, readings),
    {
        let cpu_ok = if now.saturating_sub(self.last_cpu) >= CPU_REFRESH {
            self.cpu.accepts(&readings.cpu)
        } else {
            true
        };
        let list_ok = match &readings.processes {
            Some(v) => v.len() <= isize::MAX as usize,
            None => true,
        };
        cpu_ok && list_ok
    }

    /// Samples the process list read at `now` (see `ProcessSampler::sample`) where the
    /// process list is due (its refresh period has passed since it was last taken);
    /// the caller sets CPU usage from the result and hands the list to `refresh`,
    /// which marks it taken. Where it is not due, nothing is sampled.
    pub fn sample_processes(&mut self, procs: Option<Vec<ProcessInfo>>, now: u64) -> (r: Option<
        ProcessSample,
    >)
        requires
            old(self).wf(),
        ensures
            final(self).wf(),
            final(self).ui() == old(self).ui(),
            final(self).cpu_sampler() == old(self).cpu_sampler(),
            final(self).network_sampler() == old(self).network_sampler(),
            final(self).disk_sampler() == old(self).disk_sampler(),
            final(self).figures() == old(self).figures(),
            final(self).last_read() == old(self).last_read(),
            (procs is None || !due_at(old(self).last_read().4, now, PROCESS_REFRESH)) ==> r is None
                && final(self).process_sampler().records() == old(self).process_sampler().records()
                && final(self).process_sampler().last_taken() == old(
                self,
            ).process_sampler().last_taken(),
            due_at(old(self).last_read().4, now, PROCESS_REFRESH) ==> (procs matches Some(v)
                ==> final(self).process_sampler().records() == crate::system::processes::records_of(
                v@,
            ) && final(self).process_sampler().last_taken() == Some(now)),
            due_at(old(self).last_read().4, now, PROCESS_REFRESH) ==> (procs matches Some(v) ==> (
            r matches Some(s) && s.processes@ == v@ && s.cpu_deltas@.len() == v@.len() && (forall|
                i: int,
            |
                0 <= i < v@.len() ==> #[trigger] s.cpu_deltas@[i]
                    == crate::system::processes::cpu_delta(
                    old(self).process_sampler().records(),
                    v@[i],
                )) && s.window == match old(self).process_sampler().last_taken() {
                Some(t) => Some(diff(now, t)),
                None => None,
            })),
    {
        if now.saturating_sub(self.last_processes) < PROCESS_REFRESH {
            return None;
        }
        self.processes.sample(procs, now)
    }

    /// Takes the due readings among `readings` at `now` and says whether anything
    /// shown changed. Each reading that is due is taken (a `None` reading being a
    /// failed one) and its time becomes `now`; readings not due are ignored:
    /// - CPU: the sampler takes the counters; a usage it gives replaces the last one.
    /// - memory: the figures replace the last ones; a change counts as an update.
    /// - network and disk: the samplers take the totals; a usage they give replaces
    ///   the last one.
    /// - processes: a new list replaces the old one in the current order and the
    ///   selection is clamped; then shown details take the CPU usage and memory of
    ///   their process in the list where either differs.
    pub fn refresh(&mut self, now: u64, readings: Readings) -> (updated: bool)
        requires
            old(self).wf(),
            old(self).refresh_fits(now, &readings),
        ensures
            final(self).wf(),
            refresh_step(old(self).ui(), final(self).ui()),
            due_at(old(self).last_read().4, now, PROCESS_REFRESH) ==> (readings.processes matches Some(
                v,
            ) ==> (v@.len() == 0 ==> final(self).ui().selection == 0) && (v@.len() > 0
                ==> final(self).ui().selection == if old(self).ui().selection < v@.len() {
                old(self).ui().selection
            } else {
                v@.len() - 1
            })),
            ({
                let (o, f) = (*old(self), *final(self));
                let d = due_at(o.last_read().0, now, CPU_REFRESH);
                &&& d ==> f.last_read().0 == now
                &&& !d ==> f.last_read().0 == o.last_read().0 && f.cpu_sampler() == o.cpu_sampler()
                    && f.figures().0 == o.figures().0
                &&& d ==> match readings.cpu {
                    None => f.cpu_sampler().baseline() == o.cpu_sampler().baseline()
                        && f.figures().0 == o.figures().0,
                    Some(c) => f.cpu_sampler().baseline() == Some(c@) && match o.cpu_sampler().baseline() {
                        None => f.figures().0 == o.figures().0,
                        Some(p) => (f.figures().0 matches Some(u) && usage_matches(p, c@, u)),
                    },
                }
            }),
            ({
                let (o, f) = (*old(self), *final(self));
                let d = due_at(o.last_read().1, now, MEMORY_REFRESH);
                &&& d ==> f.last_read().1 == now && f.figures().1 == readings.memory
                &&& !d ==> f.last_read().1 == o.last_read().1 && f.figures().1 == o.figures().1
            }),
            ({
                let (o, f) = (*old(self), *final(self));
                let d = due_at(o.last_read().2, now, NETWORK_REFRESH);
                &&& d ==> f.last_read().2 == now
                &&& !d ==> f.last_read().2 == o.last_read().2 && f.network_sampler() == o.network_sampler()
                    && f.figures().2 == o.figures().2
                &&& d ==> match readings.network {
                    None => f.network_sampler().baseline() == o.network_sampler().baseline()
                        && f.figures().2 == o.figures().2,
                    Some(t) => {
                        &&& f.network_sampler().baseline() == Some((t.0, t.1, now))
                        &&& (f.figures().2 matches Some(u) && u.total_downloaded == t.0
                            && u.total_uploaded == t.1 && match o.network_sampler().baseline() {
                            None => u.download_rate.bytes == 0 && u.upload_rate.bytes == 0
                                && u.download_rate.nanos == 0 && u.upload_rate.nanos == 0,
                            Some(p) => u.download_rate.bytes == diff(t.0, p.0)
                                && u.upload_rate.bytes == diff(t.1, p.1) && u.download_rate.nanos
                                == diff(now, p.2) && u.upload_rate.nanos == diff(now, p.2),
                        })
                    },
                }
            }),
            ({
                let (o, f) = (*old(self), *final(self));
                let d = due_at(o.last_read().3, now, DISK_REFRESH);
                &&& d ==> f.last_read().3 == now
                &&& !d ==> f.last_read().3 == o.last_read().3 && f.disk_sampler() == o.disk_sampler()
                    && f.figures().3 == o.figures().3
                &&& d ==> match readings.storage {
                    None => f.disk_sampler().baseline() == o.disk_sampler().baseline()
                        && f.figures().3 == o.figures().3,
                    Some(s) => {
                        &&& f.disk_sampler().baseline() == match readings.io {
                            Some(t) => Some((t.0, t.1, now)),
                            None => None,
                        }
                        &&& (f.figures().3 matches Some(di) && di.capacity == s.0 && di.used == s.1
                            && di.available == s.2 && match (o.disk_sampler().baseline(), readings.io) {
                            (Some(p), Some(t)) => di.read_rate.bytes == diff(t.0, p.0)
                                && di.write_rate.bytes == diff(t.1, p.1) && di.read_rate.nanos
                                == diff(now, p.2) && di.write_rate.nanos == diff(now, p.2),
                            _ => di.read_rate.bytes == 0 && di.write_rate.bytes == 0
                                && di.read_rate.nanos == 0 && di.write_rate.nanos == 0,
                        })
                    },
                }
            }),
            ({
                let (o, f) = (*old(self), *final(self));
                let d = due_at(o.last_read().4, now, PROCESS_REFRESH);
                &&& f.process_sampler() == o.process_sampler()
                &&& f.ui().quitting == o.ui().quitting
                &&& f.ui().requested == o.ui().requested
                &&& f.ui().sort_by == o.ui().sort_by
                &&& d ==> f.last_read().4 == now
                &&& !d ==> f.last_read().4 == o.last_read().4 && f.ui() == o.ui()
                &&& d ==> match readings.processes {
                    None => f.ui().list == o.ui().list && f.ui().selection == o.ui().selection,
                    Some(v) => stable_sort_of(v@, f.ui().list, o.ui().sort_by) && f.ui().selection
                        == clamped(o.ui().selection, v@.len() as int),
                }
                &&& d ==> f.ui().view == view_after_list(o.ui().view, f.ui().list).0
            }),
            updated == ({
                let o = *old(self);
                let f = *final(self);
                ||| due_at(o.last_read().0, now, CPU_REFRESH) && readings.cpu is Some
                    && o.cpu_sampler().baseline() is Some
                ||| due_at(o.last_read().1, now, MEMORY_REFRESH) && readings.memory != o.figures().1
                ||| due_at(o.last_read().2, now, NETWORK_REFRESH) && readings.network is Some
                ||| due_at(o.last_read().3, now, DISK_REFRESH) && readings.storage is Some
                ||| due_at(o.last_read().4, now, PROCESS_REFRESH) && (readings.processes is Some
                    || view_after_list(o.ui().view, f.ui().list).1)
            }),
    {
        let Readings { cpu, memory, network, storage, io, processes } = readings;
        let c = self.refresh_cpu(now, cpu);
        let m = self.refresh_memory(now, memory);
        let n = self.refresh_network(now, network);
        let d = self.refresh_disk(now, storage, io);
        let p = self.refresh_processes(now, processes);
        c || m || n || d || p
    }

    fn refresh_cpu(&mut self, now: u64, cpu: Option<CpuSample>) -> (updated: bool)
        requires
            due_at(old(self).last_read().0, now, CPU_REFRESH) ==> old(self).cpu_sampler().can_take(cpu),
        ensures
            final(self).ui() == old(self).ui(),
            final(self).network_sampler() == old(self).network_sampler(),
            final(self).disk_sampler() == old(self).disk_sampler(),
            final(self).process_sampler() == old(self).process_sampler(),
            final(self).figures().1 == old(self).figures().1,
            final(self).figures().2 == old(self).figures().2,
            final(self).figures().3 == old(self).figures().3,
            final(self).last_read().1 == old(self).last_read().1,
            final(self).last_read().2 == old(self).last_read().2,
            final(self).last_read().3 == old(self).last_read().3,
            final(self).last_read().4 == old(self).last_read().4,
            ({
                let (o, f) = (*old(self), *final(self));
                let d = due_at(o.last_read().0, now, CPU_REFRESH);
                &&& d ==> f.last_read().0 == now
                &&& !d ==> f.last_read().0 == o.last_read().0 && f.cpu_sampler() == o.cpu_sampler()
                    && f.figures().0 == o.figures().0
                &&& d ==> match cpu {
                    None => f.cpu_sampler().baseline() == o.cpu_sampler().baseline()
                        && f.figures().0 == o.figures().0,
                    Some(c) => f.cpu_sampler().baseline() == Some(c@) && match o.cpu_sampler().baseline() {
                        None => f.figures().0 == o.figures().0,
                        Some(p) => (f.figures().0 matches Some(u) && usage_matches(p, c@, u)),
                    },
                }
            }),
            updated == (due_at(old(self).last_read().0, now, CPU_REFRESH) && cpu is Some
                && old(self).cpu_sampler().baseline() is Some),
    {
        let mut updated = false;
        if now.saturating_sub(self.last_cpu) >= CPU_REFRESH {
            if let Some(usage) = self.cpu.sample(cpu) {
                self.cpu_usage = Some(usage);
                updated = true;
            }
            self.last_cpu = now;
        }
        updated
    }

    fn refresh_memory(&mut self, now: u64, memory: Option<MemoryInfo>) -> (updated: bool)
        ensures
            final(self).ui() == old(self).ui(),
            final(self).cpu_sampler() == old(self).cpu_sampler(),
            final(self).network_sampler() == old(self).network_sampler(),
            final(self).disk_sampler() == old(self).disk_sampler(),
            final(self).process_sampler() == old(self).process_sampler(),
            final(self).figures().0 == old(self).figures().0,
            final(self).figures().2 == old(self).figures().2,
            final(self).figures().3 == old(self).figures().3,
            final(self).last_read().0 == old(self).last_read().0,
            final(self).last_read().2 == old(self).last_read().2,
            final(self).last_read().3 == old(self).last_read().3,
            final(self).last_read().4 == old(self).last_read().4,
            ({
                let (o, f) = (*old(self), *final(self));
                let d = due_at(o.last_read().1, now, MEMORY_REFRESH);
                &&& d ==> f.last_read().1 == now && f.figures().1 == memory
                &&& !d ==> f.last_read().1 == o.last_read().1 && f.figures().1 == o.figures().1
            }),
            updated == (due_at(old(self).last_read().1, now, MEMORY_REFRESH) && memory != old(
                self,
            ).figures().1),
    {
        let mut updated = false;
        if now.saturating_sub(self.last_memory) >= MEMORY_REFRESH {
            let changed = !same_memory(&memory, &self.memory);
            self.memory = memory;
            if changed {
                updated = true;
            }
            self.last_memory = now;
        }
        updated
    }

    fn refresh_network(&mut self, now: u64, network: Option<(u64, u64)>) -> (updated: bool)
        ensures
            final(self).ui() == old(self).ui(),
            final(self).cpu_sampler() == old(self).cpu_sampler(),
            final(self).disk_sampler() == old(self).disk_sampler(),
            final(self).process_sampler() == old(self).process_sampler(),
            final(self).figures().0 == old(self).figures().0,
            final(self).figures().1 == old(self).figures().1,
            final(self).figures().3 == old(self).figures().3,
            final(self).last_read().0 == old(self).last_read().0,
            final(self).last_read().1 == old(self).last_read().1,
            final(self).last_read().3 == old(self).last_read().3,
            final(self).last_read().4 == old(self).last_read().4,
            ({
                let (o, f) = (*old(self), *final(self));
                let d = due_at(o.last_read().2, now, NETWORK_REFRESH);
                &&& d ==> f.last_read().2 == now
                &&& !d ==> f.last_read().2 == o.last_read().2 && f.network_sampler() == o.network_sampler()
                    && f.figures().2 == o.figures().2
                &&& d ==> match network {
                    None => f.network_sampler().baseline() == o.network_sampler().baseline()
                        && f.figures().2 == o.figures().2,
                    Some(t) => {
                        &&& f.network_sampler().baseline() == Some((t.0, t.1, now))
                        &&& (f.figures().2 matches Some(u) && u.total_downloaded == t.0
                            && u.total_uploaded == t.1 && match o.network_sampler().baseline() {
                            None => u.download_rate.bytes == 0 && u.upload_rate.bytes == 0
                                && u.download_rate.nanos == 0 && u.upload_rate.nanos == 0,
                            Some(p) => u.download_rate.bytes == diff(t.0, p.0)
                                && u.upload_rate.bytes == diff(t.1, p.1) && u.download_rate.nanos
                                == diff(now, p.2) && u.upload_rate.nanos == diff(now, p.2),
                        })
                    },
                }
            }),
            updated == (due_at(old(self).last_read().2, now, NETWORK_REFRESH) && network is Some),
    {
        let mut updated = false;
        if now.saturating_sub(self.last_network) >= NETWORK_REFRESH {
            if let Some(usage) = self.network.sample(network, now) {
                self.network_usage = Some(usage);
                updated = true;
            }
            self.last_network = now;
        }
        updated
    }

    fn refresh_disk(&mut self, now: u64, storage: Option<(u64, u64, u64)>, io: Option<(u64, u64)>) -> (updated: bool)
        ensures
            final(self).ui() == old(self).ui(),
            final(self).cpu_sampler() == old(self).cpu_sampler(),
            final(self).network_sampler() == old(self).network_sampler(),
            final(self).process_sampler() == old(self).process_sampler(),
            final(self).figures().0 == old(self).figures().0,
            final(self).figures().1 == old(self).figures().1,
            final(self).figures().2 == old(self).figures().2,
            final(self).last_read().0 == old(self).last_read().0,
            final(self).last_read().1 == old(self).last_read().1,
            final(self).last_read().2 == old(self).last_read().2,
            final(self).last_read().4 == old(self).last_read().4,
            ({
                let (o, f) = (*old(self), *final(self));
                let d = due_at(o.last_read().3, now, DISK_REFRESH);
                &&& d ==> f.last_read().3 == now
                &&& !d ==> f.last_read().3 == o.last_read().3 && f.disk_sampler() == o.disk_sampler()
                    && f.figures().3 == o.figures().3
                &&& d ==> match storage {
                    None => f.disk_sampler().baseline() == o.disk_sampler().baseline()
                        && f.figures().3 == o.figures().3,
                    Some(s) => {
                        &&& f.disk_sampler().baseline() == match io {
                            Some(t) => Some((t.0, t.1, now)),
                            None => None,
                        }
                        &&& (f.figures().3 matches Some(di) && di.capacity == s.0 && di.used == s.1
                            && di.available == s.2 && match (o.disk_sampler().baseline(), io) {
                            (Some(p), Some(t)) => di.read_rate.bytes == diff(t.0, p.0)
                                && di.write_rate.bytes == diff(t.1, p.1) && di.read_rate.nanos
                                == diff(now, p.2) && di.write_rate.nanos == diff(now, p.2),
                            _ => di.read_rate.bytes == 0 && di.write_rate.bytes == 0
                                && di.read_rate.nanos == 0 && di.write_rate.nanos == 0,
                        })
                    },
                }
            }),
            updated == (due_at(old(self).last_read().3, now, DISK_REFRESH) && storage is Some),
    {
        let mut updated = false;
        if now.saturating_sub(self.last_disk) >= DISK_REFRESH {
            if let Some(info) = self.disk.sample(storage, io, now) {
                self.disk_info = Some(info);
                updated = true;
            }
            self.last_disk = now;
        }
        updated
    }

    fn refresh_processes(&mut self, now: u64, processes: Option<Vec<ProcessInfo>>) -> (updated: bool)
        requires
            old(self).wf(),
            processes matches Some(v) ==> v@.len() <= isize::MAX,
        ensures
            final(self).wf(),
            final(self).cpu_sampler() == old(self).cpu_sampler(),
            final(self).network_sampler() == old(self).network_sampler(),
            final(self).disk_sampler() == old(self).disk_sampler(),
            final(self).process_sampler() == old(self).process_sampler(),
            final(self).figures() == old(self).figures(),
            final(self).last_read().0 == old(self).last_read().0,
            final(self).last_read().1 == old(self).last_read().1,
            final(self).last_read().2 == old(self).last_read().2,
            final(self).last_read().3 == old(self).last_read().3,
            ({
                let (o, f) = (*old(self), *final(self));
                let d = due_at(o.last_read().4, now, PROCESS_REFRESH);
                &&& f.ui().quitting == o.ui().quitting
                &&& f.ui().requested == o.ui().requested
                &&& f.ui().sort_by == o.ui().sort_by
                &&& d ==> f.last_read().4 == now
                &&& !d ==> f.last_read().4 == o.last_read().4 && f.ui() == o.ui()
                &&& d ==> match processes {
                    None => f.ui().list == o.ui().list && f.ui().selection == o.ui().selection,
                    Some(v) => stable_sort_of(v@, f.ui().list, o.ui().sort_by) && f.ui().selection
                        == clamped(o.ui().selection, v@.len() as int),
                }
                &&& d ==> f.ui().view == view_after_list(o.ui().view, f.ui().list).0
            }),
            updated == (due_at(old(self).last_read().4, now, PROCESS_REFRESH) && (processes is Some
                || view_after_list(old(self).ui().view, final(self).ui().list).1)),
    {
        let mut updated = false;
        if now.saturating_sub(self.last_processes) >= PROCESS_REFRESH {
            if let Some(mut list) = processes {
                sort_processes(&mut list, self.sort_by);
                let selection = if list.len() == 0 {
                    0
                } else if self.selection > list.len() - 1 {
                    list.len() - 1
                } else {
                    self.selection
                };
                self.selection = selection;
                self.process_list = list;
                updated = true;
            }
            if self.refresh_details() {
                updated = true;
            }
            self.last_processes = now;
        }
        updated
    }

    /// Shown details take the CPU usage and memory of their process in the list where
    /// either differs; says whether they did.
    fn refresh_details(&mut self) -> (changed: bool)
        requires
            old(self).wf(),
        ensures
            final(self).wf(),
            final(self).same_readings(&*old(self)),
            final(self).ui() == (UiState {
                view: view_after_list(old(self).ui().view, old(self).ui().list).0,
                ..old(self).ui()
            }),
            changed == view_after_list(old(self).ui().view, old(self).ui().list).1,
    {
        let found: Option<(u64, u64)> = match &self.view {
            Screen::Details { details, .. } => match find_pid(&self.process_list, details.pid) {
                Some(i) => {
                    let p = &self.process_list[i];
                    if !floats_equal(details.cpu, p.cpu) || details.memory != p.memory {
                        Some((p.cpu, p.memory))
                    } else {
                        None
                    }
                },
                None => None,
            },
            Screen::List => None,
        };
        match found {
            Some((cpu, memory)) => {
                match &mut self.view {
                    Screen::Details { details, .. } => {
                        details.cpu = cpu;
                        details.memory = memory;
                    },
                    Screen::List => {},
                }
                true
            },
            None => false,
        }
    }
}


/// Keys keep the selection inside the list: whatever key is pressed, the selection
/// still points at a listed process, or is zero when the list is empty.
pub proof fn lemma_keys_keep_selection_in_list(s: UiState, key: Key, t: UiState, a: Action)
    requires
        ui_wf(s),
        key_step(s, key, t, a),
    ensures
        ui_wf(t),
{
}

/// A process is only ever killed from the confirmation, by `y`, and it is the process
/// whose details are shown; the list is shown afterwards.
pub proof fn lemma_kill_needs_confirmation(s: UiState, key: Key, t: UiState, pid: i32)
    requires
        key_step(s, key, t, Action::Kill(pid)),
    ensures
        s.view matches Screen::Details { details, confirm_kill } && confirm_kill && details.pid
            == pid,
        key == Key::Char('y'),
        t.view == Screen::List,
        t.list == s.list,
        t.selection == s.selection,
{
}

/// Once the monitor is quitting, no key brings it back.
pub proof fn lemma_quitting_is_final(s: UiState, key: Key, t: UiState, a: Action)
    requires
        s.quitting,
        key_step(s, key, t, a),
    ensures
        t.quitting,
{
}

/// Asking for the details of the selected process with Enter, showing them once they
/// could be read, and going back with `b` or Esc returns to the list exactly as it
/// was, with nothing to do.
pub proof fn lemma_details_then_back(
    s: UiState,
    t: UiState,
    open: Action,
    fetched: Option<ProcessDetails>,
    u: UiState,
    back: Key,
    w: UiState,
    a: Action,
)
    requires
        ui_wf(s),
        s.view == Screen::List,
        s.requested is None,
        s.list.len() > 0,
        key_step(s, Key::Enter, t, open),
        fetched matches Some(d) && d.pid == s.list[s.selection].pid,
        open_step(t, fetched, u),
        back == Key::Char('b') || back == Key::Esc,
        key_step(u, back, w, a),
    ensures
        open == Action::OpenDetails(s.list[s.selection].pid),
        u.view is Details,
        w == s,
        a == Action::Nothing,
{
}

/// In the list, a sort key orders the list by its criterion and keeps exactly the
/// processes that were listed.
pub proof fn lemma_sort_key_orders_list(s: UiState, c: char, t: UiState, a: Action)
    requires
        s.view == Screen::List,
        sort_for(c) is Some,
        key_step(s, Key::Char(c), t, a),
    ensures
        t.sort_by == sort_for(c)->0,
        is_sorted(t.list, t.sort_by),
        t.list.to_multiset() == s.list.to_multiset(),
        a == Action::Nothing,
{
    lemma_stable_sort_permutes(s.list, t.list, t.sort_by);
}


/// Pressing the same sort key twice leaves the list and the selection as the first
/// press left them.
pub proof fn lemma_sort_key_twice(s: UiState, c: char, t: UiState, a: Action, u: UiState, b: Action)
    requires
        ui_wf(s),
        s.view == Screen::List,
        sort_for(c) is Some,
        key_step(s, Key::Char(c), t, a),
        key_step(t, Key::Char(c), u, b),
    ensures
        u == t,
{
    lemma_sorting_sorted_is_identity(t.list, u.list, t.sort_by);
}


/// Shown details keep up with the list: once the list is `list`, details of a listed
/// process show the memory of its first entry, and a CPU usage equal to its own as
/// doubles compare; the process, the other fields and the confirmation stay.
pub proof fn lemma_details_follow_list(v: Screen, list: Seq<ProcessInfo>)
    requires
        v matches Screen::Details { details, .. } && first_with_pid(list, details.pid) is Some,
    ensures
        ({
            let (details, confirm_kill) = (v->details, v->confirm_kill);
            let p = first_with_pid(list, details.pid)->0;
            let w = view_after_list(v, list).0;
            &&& w is Details
            &&& w->details == (ProcessDetails { cpu: w->details.cpu, memory: p.memory, ..details })
            &&& w->confirm_kill == confirm_kill
            &&& (w->details.cpu == p.cpu || float_eq(w->details.cpu, p.cpu))
        }),
{
}


/// What a run has gone through by state `i`: a request comes from an Enter before it;
/// shown details from an Enter for their process before it; an open confirmation
/// from a `k` in those details, itself after such an Enter.
pub open spec fn run_history(states: Seq<UiState>, steps: Seq<Step>, actions: Seq<Action>, i: int) -> bool {
    &&& (states[i].requested matches Some(p) ==> (exists|j: int|
        j < i && #[trigger] entered_at(states, steps, actions, j, p)))
    &&& (states[i].view matches Screen::Details { details, .. } ==> (exists|j: int|
        j < i && #[trigger] entered_at(states, steps, actions, j, details.pid)))
    &&& (states[i].view matches Screen::Details { details, confirm_kill } ==> (confirm_kill
        ==> confirmed_after_enter(states, steps, actions, i, details.pid)))
}

/// Before step `i` of the run there was a `k` in the details of `pid`, and before it
/// an Enter asking for them.
pub open spec fn confirmed_after_enter(
    states: Seq<UiState>,
    steps: Seq<Step>,
    actions: Seq<Action>,
    i: int,
    pid: i32,
) -> bool {
    exists|k: int|
        k < i && #[trigger] confirm_asked_at(states, steps, k, pid) && (exists|j: int|
            j < k && #[trigger] entered_at(states, steps, actions, j, pid))
}

/// Refreshed details are those of the same process, with the confirmation as it was.
proof fn lemma_view_after_list_keeps_process(v: Screen, list: Seq<ProcessInfo>)
    ensures
        v == Screen::List ==> view_after_list(v, list).0 == Screen::List,
        v matches Screen::Details { details, confirm_kill } ==> view_after_list(v, list).0 matches Screen::Details {
            details: d,
            confirm_kill: c,
        } && d.pid == details.pid && c == confirm_kill,
{
}

proof fn lemma_run_history(states: Seq<UiState>, steps: Seq<Step>, actions: Seq<Action>, i: int)
    requires
        is_run(states, steps, actions),
        states[0].view == Screen::List,
        states[0].requested is None,
        0 <= i <= steps.len(),
    ensures
        run_history(states, steps, actions, i),
    decreases i,
{
    if i > 0 {
        let h = i - 1;
        lemma_run_history(states, steps, actions, h);
        assert(step_ok(states[h], steps[h], states[h + 1], actions[h]));
        let (s, t, a) = (states[h], states[i], actions[h]);
        lemma_view_after_list_keeps_process(s.view, t.list);
        match steps[h] {
            Step::Press(key) => {
                if let Some(p) = t.requested {
                    assert(entered_at(states, steps, actions, h, p));
                }
                if let Screen::Details { details, confirm_kill } = t.view {
                    if let Screen::Details { details: d0, confirm_kill: c0 } = s.view {
                        assert(d0 == details);
                        let j = choose|j: int|
                            j < h && #[trigger] entered_at(states, steps, actions, j, d0.pid);
                        assert(j < i && entered_at(states, steps, actions, j, details.pid));
                        if confirm_kill && !c0 {
                            assert(confirm_asked_at(states, steps, h, details.pid));
                        }
                    }
                }
            },
            Step::Open(fetched) => {
                if answers_request(s, fetched) {
                    let p = s.list[s.selection].pid;
                    assert(s.requested == Some(p));
                    let j = choose|j: int| j < h && #[trigger] entered_at(states, steps, actions, j, p);
                    assert(t.view->details.pid == p);
                    assert(j < i && entered_at(states, steps, actions, j, p));
                } else if let Screen::Details { details, .. } = s.view {
                    let j = choose|j: int|
                        j < h && #[trigger] entered_at(states, steps, actions, j, details.pid);
                    assert(j < i && entered_at(states, steps, actions, j, details.pid));
                }
            },
            Step::Refresh => {
                if let Screen::Details { details, .. } = s.view {
                    let j = choose|j: int|
                        j < h && #[trigger] entered_at(states, steps, actions, j, details.pid);
                    assert(j < i && entered_at(states, steps, actions, j, details.pid));
                }
            },
        }
    }
}

/// A process is killed only as the end of this sequence, in a run that starts in
/// the list with nothing asked for: Enter in the list asks for its details, `k` in
/// its details opens the confirmation, and `y` in the confirmation kills it. Each
/// step asks for at most one kill.
pub proof fn lemma_kill_follows_enter_and_confirmation(
    states: Seq<UiState>,
    steps: Seq<Step>,
    actions: Seq<Action>,
    i: int,
    pid: i32,
)
    requires
        is_run(states, steps, actions),
        states[0].view == Screen::List,
        states[0].requested is None,
        0 <= i < steps.len(),
        actions[i] == Action::Kill(pid),
    ensures
        steps[i] == Step::Press(Key::Char('y')),
        states[i].view matches Screen::Details { details, confirm_kill } && confirm_kill
            && details.pid == pid,
        confirmed_after_enter(states, steps, actions, i, pid),
{
    assert(step_ok(states[i], steps[i], states[i + 1], actions[i]));
    match steps[i] {
        Step::Press(key) => {
            lemma_kill_needs_confirmation(states[i], key, states[i + 1], pid);
        },
        _ => {},
    }
    lemma_run_history(states, steps, actions, i);
}


/// Keeping the selection in a list of `len` processes moves it only where it fell
/// off the end: a row that is still in the list stays selected, and one past the end
/// becomes the last row.
pub proof fn lemma_clamped_keeps_rows_in_list(sel: int, len: int)
    requires
        0 <= sel,
    ensures
        0 <= sel < len ==> clamped(sel, len) == sel,
        0 < len <= sel ==> clamped(sel, len) == len - 1,
        len == 0 ==> clamped(sel, len) == 0,
{
}

/// A sort key keeps the selected row: it reorders the list and leaves the selection
/// where it was.
pub proof fn lemma_sort_key_keeps_selection(s: UiState, c: char, t: UiState, a: Action)
    requires
        ui_wf(s),
        s.view == Screen::List,
        sort_for(c) is Some,
        key_step(s, Key::Char(c), t, a),
    ensures
        t.selection == s.selection,
        t.list.len() == s.list.len(),
{
}


/// Moving the selection by `delta` in a list of `len` processes lands on the row
/// `delta` away where there is one, else on the first or the last row; in an empty
/// list nothing moves.
pub proof fn lemma_moves_stay_in_list(sel: int, delta: int, len: int)
    requires
        0 <= sel < len || (len == 0 && sel == 0),
    ensures
        len == 0 ==> moved(sel, delta, len) == sel,
        len > 0 ==> 0 <= moved(sel, delta, len) < len,
        0 <= sel + delta < len ==> moved(sel, delta, len) == sel + delta,
        len > 0 && sel + delta < 0 ==> moved(sel, delta, len) == 0,
        len > 0 && sel + delta >= len ==> moved(sel, delta, len) == len - 1,
{
}

/// A reading is due exactly when its period has passed since it was last taken; a
/// clock that reads earlier than the last reading makes nothing due (with a
/// positive period).
pub proof fn lemma_due_after_period(last: u64, now: u64, period: u64)
    ensures
        now >= last ==> (due_at(last, now, period) <==> now - last >= period),
        now < last && period > 0 ==> !due_at(last, now, period),
{
}

} // verus!
