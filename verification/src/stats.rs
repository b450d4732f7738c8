//! Counting what a run has reported.

use vstd::prelude::*;
use crate::actions::{report_views, Report, ReportView};

verus! {

/// How many requests were made, and how many of them went well.
#[derive(Clone, Copy, Debug, PartialEq, Eq, Structural)]
pub struct DrillStats {
    pub total_requests: usize,
    pub successful_requests: usize,
    pub failed_requests: usize,
}

/// Whether a status says that the request went well: 200 to 299.
pub open spec fn is_success(status: u16) -> bool {
    status / 100 == 2
}

/// How many of the first `n` of `reports` have a status that says that the
/// request went well.
pub open spec fn successes(reports: Seq<ReportView>, n: nat) -> nat
    decreases n,
{
    if n == 0 || n > reports.len() {
        0
    } else {
        successes(reports, (n - 1) as nat) + if is_success(reports[n - 1].status) {
            1nat
        } else {
            0nat
        }
    }
}

/// How many requests `sub_reports` holds, how many of them went well, and how
/// many did not.
pub fn compute_stats(sub_reports: &Vec<Report>) -> (r: DrillStats)
    ensures
        r.total_requests == sub_reports@.len(),
        r.successful_requests == successes(report_views(sub_reports@), sub_reports@.len()),
        r.failed_requests == r.total_requests - r.successful_requests,
{
    let ghost views = report_views(sub_reports@);
    let mut successful: usize = 0;
    let mut i: usize = 0;
    while i < sub_reports.len()
        invariant
            i <= sub_reports.len(),
            views == report_views(sub_reports@),
            successful == successes(views, i as nat),
            successful <= i,
        decreases sub_reports.len() - i,
    {
        assert(views[i as int] == sub_reports@[i as int]@);
        if sub_reports[i].status / 100 == 2 {
            successful += 1;
        }
        i += 1;
    }
    DrillStats {
        total_requests: sub_reports.len(),
        successful_requests: successful,
        failed_requests: sub_reports.len() - successful,
    }
}

} // verus!
