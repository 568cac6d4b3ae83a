//! The rows of the disk panel.

use vstd::prelude::*;

use crate::models::disk::DiskInfo;
use crate::ui::format::{bytes, bytes_text};

verus! {

/// The disk panel over the last disk figures.
pub struct DiskPanel<'a> {
    pub disk: &'a DiskInfo,
}

impl<'a> DiskPanel<'a> {
    pub fn new(disk: &'a DiskInfo) -> (p: Self)
        ensures
            p.disk == disk,
    {
        DiskPanel { disk }
    }

    /// Label and value of each row, top to bottom: capacity, used (with the used
    /// share `used_percent` in brackets), available, and read and write throughput
    /// (whole bytes per second, as given).
    pub fn rows(&self, used_percent: &str, read_per_sec: u64, write_per_sec: u64) -> (r: Vec<
        (String, String),
    >)
        ensures
            r@.len() == 5,
            r@[0].0@ == "Capacity"@ && r@[0].1@ == bytes_text(self.disk.capacity as nat),
            r@[1].0@ == "Used"@ && r@[1].1@ == bytes_text(self.disk.used as nat) + "  ("@
                + used_percent@ + ")"@,
            r@[2].0@ == "Available"@ && r@[2].1@ == bytes_text(self.disk.available as nat),
            r@[3].0@ == "Read"@ && r@[3].1@ == bytes_text(read_per_sec as nat) + "/s"@,
            r@[4].0@ == "Write"@ && r@[4].1@ == bytes_text(write_per_sec as nat) + "/s"@,
    {
        let d = self.disk;
        let mut used = bytes(d.used);
        used.append("  (");
        used.append(used_percent);
        used.append(")");
        let mut read = bytes(read_per_sec);
        read.append("/s");
        let mut write = bytes(write_per_sec);
        write.append("/s");
        let mut rows: Vec<(String, String)> = Vec::new();
        rows.push((String::from_str("Capacity"), bytes(d.capacity)));
        rows.push((String::from_str("Used"), used));
        rows.push((String::from_str("Available"), bytes(d.available)));
        rows.push((String::from_str("Read"), read));
        rows.push((String::from_str("Write"), write));
        rows
    }

    /// Whether a panel `height` rows high has room for the usage bar.
    pub fn shows_bar(height: u16) -> (b: bool)
        ensures
            b == (height > 8),
    {
        height > 8
    }
}

} // verus!
