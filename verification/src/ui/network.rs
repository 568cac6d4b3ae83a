//! The rows of the network panel.

use vstd::prelude::*;

use crate::models::network::NetworkUsage;
use crate::ui::format::{bytes, bytes_text};

verus! {

/// The network panel over the last network usage.
pub struct NetworkPanel<'a> {
    pub usage: &'a NetworkUsage,
}

impl<'a> NetworkPanel<'a> {
    pub fn new(usage: &'a NetworkUsage) -> (p: Self)
        ensures
            p.usage == usage,
    {
        NetworkPanel { usage }
    }

    /// Label and value of each row, top to bottom: download and upload throughput
    /// (whole bytes per second, as given), then the totals received and sent.
    pub fn rows(&self, download_per_sec: u64, upload_per_sec: u64) -> (r: Vec<(String, String)>)
        ensures
            r@.len() == 4,
            r@[0].0@ == "Download"@ && r@[0].1@ == "↓ "@ + bytes_text(download_per_sec as nat)
                + "/s"@,
            r@[1].0@ == "Upload"@ && r@[1].1@ == "↑ "@ + bytes_text(upload_per_sec as nat) + "/s"@,
            r@[2].0@ == "Total ↓"@ && r@[2].1@ == bytes_text(self.usage.total_downloaded as nat),
            r@[3].0@ == "Total ↑"@ && r@[3].1@ == bytes_text(self.usage.total_uploaded as nat),
    {
        let mut down = String::from_str("↓ ");
        down.append(bytes(download_per_sec).as_str());
        down.append("/s");
        let mut up = String::from_str("↑ ");
        up.append(bytes(upload_per_sec).as_str());
        up.append("/s");
        let mut rows: Vec<(String, String)> = Vec::new();
        rows.push((String::from_str("Download"), down));
        rows.push((String::from_str("Upload"), up));
        rows.push((String::from_str("Total ↓"), bytes(self.usage.total_downloaded)));
        rows.push((String::from_str("Total ↑"), bytes(self.usage.total_uploaded)));
        rows
    }
}

} // verus!
