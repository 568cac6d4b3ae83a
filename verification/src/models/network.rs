use vstd::prelude::*;

use crate::models::rate::Rate;

verus! {

/// Network throughput and the byte totals the interfaces report.
pub struct NetworkUsage {
    pub download_rate: Rate,
    pub upload_rate: Rate,
    pub total_downloaded: u64,
    pub total_uploaded: u64,
}

} // verus!
