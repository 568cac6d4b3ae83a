use vstd::prelude::*;

use crate::system::processes::{state_char, state_letter};

verus! {

/// One process as listed. `cpu` is the bit pattern of the double holding its CPU
/// usage in percent (see `float_bits`).
pub struct ProcessInfo {
    pub pid: i32,
    pub name: String,
    pub state: char,
    pub threads: i32,
    /// Total CPU time, user and system, in nanoseconds.
    pub cpu_time: u64,
    pub cpu: u64,
    /// Resident size in bytes.
    pub memory: u64,
}

/// What the process list is ordered by.
#[derive(Clone, Copy, PartialEq, Eq, Structural)]
pub enum SortBy {
    Cpu,
    Memory,
    Pid,
    Name,
}

/// The detail view of one process. `cpu` is the bit pattern of a double, as in
/// `ProcessInfo`.
pub struct ProcessDetails {
    pub pid: i32,
    pub name: String,
    pub parent: i32,
    pub user: String,
    pub state: char,
    pub cpu: u64,
    pub memory: u64,
    pub threads: i32,
    pub executable: String,
}

impl ProcessInfo {
    /// A listed process from its task record: CPU time is user plus system time, the
    /// state is the letter of the status, and CPU usage starts at `+0.0`.
    pub fn from_task(
        pid: i32,
        name: String,
        status: u32,
        threads: i32,
        user_time: u64,
        system_time: u64,
        resident: u64,
    ) -> (p: ProcessInfo)
        requires
            user_time + system_time <= u64::MAX,
        ensures
            p.pid == pid,
            p.name@ == name@,
            p.state == state_letter(status),
            p.threads == threads,
            p.cpu_time == user_time + system_time,
            p.cpu == 0,
            p.memory == resident,
    {
        ProcessInfo {
            pid,
            name,
            state: state_char(status),
            threads,
            cpu_time: user_time + system_time,
            cpu: 0,
            memory: resident,
        }
    }
}

} // verus!
