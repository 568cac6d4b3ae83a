//! Labels of the CPU panel.

use vstd::prelude::*;

use crate::models::cpu::CpuUsage;
use crate::ui::format::{decimal, push_decimal};

verus! {

/// The CPU panel over the last CPU usage: the total, user, system and idle shares,
/// then one bar per core.
pub struct CpuPanel<'a> {
    pub usage: &'a CpuUsage,
}

impl<'a> CpuPanel<'a> {
    pub fn new(usage: &'a CpuUsage) -> (p: Self)
        ensures
            p.usage == usage,
    {
        CpuPanel { usage }
    }

    /// The head of the panel from the percentage texts: the `Total` row with the busy
    /// share, and the line of user, system and idle shares.
    pub fn summary(&self, total: &str, user: &str, system: &str, idle: &str) -> (r: (
        (String, String),
        String,
    ))
        ensures
            r.0.0@ == "Total"@,
            r.0.1@ == total@,
            r.1@ == "User "@ + user@ + "  System "@ + system@ + "  Idle "@ + idle@,
    {
        let mut shares = String::from_str("User ");
        shares.append(user);
        shares.append("  System ");
        shares.append(system);
        shares.append("  Idle ");
        shares.append(idle);
        ((String::from_str("Total"), String::from_str(total)), shares)
    }

    /// Whether there is a bar per core to show; without, the panel says `no core data`.
    pub fn has_cores(&self) -> (b: bool)
        ensures
            b == (self.usage.cores@.len() > 0),
    {
        self.usage.cores.len() > 0
    }
}

/// The label of core `i` (counted from zero): `Core ` and its number from one,
/// right-aligned in two columns.
pub open spec fn core_label_text(i: nat) -> Seq<char> {
    let n = decimal(i + 1);
    if n.len() < 2 {
        "Core  "@ + n
    } else {
        "Core "@ + n
    }
}

pub fn core_label(i: usize) -> (s: String)
    requires
        i < u64::MAX,
    ensures
        s@ == core_label_text(i as nat),
{
    let n = (i as u64) + 1;
    let mut s = if n < 10 {
        String::from_str("Core  ")
    } else {
        String::from_str("Core ")
    };
    push_decimal(&mut s, n);
    proof {
        if n < 10 {
            assert(decimal(n as nat).len() == 1);
        } else {
            assert(decimal(n as nat / 10).len() >= 1) by {
                lemma_decimal_nonempty(n as nat / 10);
            }
        }
    }
    s
}

/// A decimal notation has at least one digit.
pub proof fn lemma_decimal_nonempty(n: nat)
    ensures
        decimal(n).len() >= 1,
    decreases n,
{
    if n >= 10 {
        lemma_decimal_nonempty(n / 10);
    }
}

} // verus!
