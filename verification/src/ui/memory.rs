//! The rows of the memory panel.

use vstd::prelude::*;

use crate::models::memory::MemoryInfo;
use crate::ui::format::{bytes, bytes_text};

verus! {

/// The memory panel over the last memory figures.
pub struct MemoryPanel<'a> {
    pub memory: &'a MemoryInfo,
}

impl<'a> MemoryPanel<'a> {
    pub fn new(memory: &'a MemoryInfo) -> (p: Self)
        ensures
            p.memory == memory,
    {
        MemoryPanel { memory }
    }

    /// Label and value of each row, top to bottom: physical, used (with the used
    /// share `used_percent` in brackets), cached, free and compressed memory, and swap
    /// used out of total.
    pub fn rows(&self, used_percent: &str) -> (r: Vec<(String, String)>)
        requires
            self.memory.spec_used() <= u64::MAX,
            self.memory.spec_cached() <= u64::MAX,
        ensures
            r@.len() == 6,
            r@[0].0@ == "Physical"@ && r@[0].1@ == bytes_text(self.memory.physical as nat),
            r@[1].0@ == "Used"@ && r@[1].1@ == bytes_text(self.memory.spec_used() as nat)
                + "  ("@ + used_percent@ + ")"@,
            r@[2].0@ == "Cached"@ && r@[2].1@ == bytes_text(self.memory.spec_cached() as nat),
            r@[3].0@ == "Free"@ && r@[3].1@ == bytes_text(self.memory.free as nat),
            r@[4].0@ == "Compressed"@ && r@[4].1@ == bytes_text(self.memory.compressed as nat),
            r@[5].0@ == "Swap"@ && r@[5].1@ == bytes_text(self.memory.swap_used as nat) + " / "@
                + bytes_text(self.memory.swap_total as nat),
    {
        let m = self.memory;
        let mut used = bytes(m.used());
        used.append("  (");
        used.append(used_percent);
        used.append(")");
        let mut swap = bytes(m.swap_used);
        swap.append(" / ");
        swap.append(bytes(m.swap_total).as_str());
        let mut rows: Vec<(String, String)> = Vec::new();
        rows.push((String::from_str("Physical"), bytes(m.physical)));
        rows.push((String::from_str("Used"), used));
        rows.push((String::from_str("Cached"), bytes(m.cached())));
        rows.push((String::from_str("Free"), bytes(m.free)));
        rows.push((String::from_str("Compressed"), bytes(m.compressed)));
        rows.push((String::from_str("Swap"), swap));
        rows
    }
}

} // verus!
