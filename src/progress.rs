//! Live progress of a run: counters updated as scenarios finish, and the
//! snapshots the progress monitor reports while the run is in flight.

use vstd::prelude::*;

use crate::summary::{
    capped, failure_count, lemma_scaled_ratio_bound, rounded_ratio, scaled_ratio, success_count,
};
use crate::types::UserScenarioResult;

verus! {

/// Counters shared by the running scenarios and the progress monitor.
#[derive(Debug, Clone, Copy, PartialEq, Eq, Structural)]
pub struct ProgressCounters {
    pub completed: usize,
    pub total_requests: usize,
    pub failed_requests: usize,
}

impl ProgressCounters {
    pub fn new() -> (r: ProgressCounters)
        ensures
            r.completed == 0,
            r.total_requests == 0,
            r.failed_requests == 0,
    {
        ProgressCounters { completed: 0, total_requests: 0, failed_requests: 0 }
    }

    /// Whether `result` can be counted without overflowing a counter.
    pub open spec fn can_count(&self, result: UserScenarioResult) -> bool {
        &&& self.completed < usize::MAX
        &&& self.total_requests + result.requests@.len() <= usize::MAX
        &&& self.failed_requests + result.requests@.len() <= usize::MAX
    }

    /// Counts a finished scenario.
    pub fn record_scenario(&mut self, result: &UserScenarioResult)
        requires
            old(self).can_count(*result),
        ensures
            final(self).completed == old(self).completed + 1,
            final(self).total_requests == old(self).total_requests + result.requests@.len(),
            final(self).failed_requests == old(self).failed_requests + failure_count(result.requests@),
    {
        let reqs = &result.requests;
        let mut failed: usize = 0;
        let mut i: usize = 0;
        while i < reqs.len()
            invariant
                i <= reqs@.len(),
                failed == i - success_count(reqs@.take(i as int)),
                success_count(reqs@.take(i as int)) <= i,
            decreases reqs@.len() - i,
        {
            proof {
                assert(reqs@.take(i as int + 1).drop_last() =~= reqs@.take(i as int));
            }
            if !reqs[i].success {
                failed = failed + 1;
            }
            i = i + 1;
        }
        proof {
            assert(reqs@.take(reqs@.len() as int) =~= reqs@);
        }
        self.completed = self.completed + 1;
        self.total_requests = self.total_requests + reqs.len();
        self.failed_requests = self.failed_requests + failed;
    }
}

/// Seconds between two progress samples: less often for larger runs.
pub open spec fn monitor_interval(total_scenarios: nat) -> nat {
    if total_scenarios > 100 {
        10
    } else if total_scenarios > 20 {
        5
    } else {
        2
    }
}

pub fn monitor_interval_secs(total_scenarios: usize) -> (r: u64)
    ensures
        r == monitor_interval(total_scenarios as nat),
{
    if total_scenarios > 100 {
        10
    } else if total_scenarios > 20 {
        5
    } else {
        2
    }
}

/// The monitor stops once every scenario has completed.
pub fn monitor_finished(counters: &ProgressCounters, total_scenarios: usize) -> (r: bool)
    ensures
        r == (counters.completed >= total_scenarios),
{
    counters.completed >= total_scenarios
}

/// What one progress line reports.
#[derive(Debug, Clone, Copy, PartialEq, Eq, Structural)]
pub struct ProgressSnapshot {
    pub completed: usize,
    pub total_scenarios: usize,
    pub total_requests: usize,
    pub failed_requests: usize,
    /// Completed share of the scenarios, in tenths of a percent.
    pub percent_tenths: u64,
    /// Requests per whole second elapsed, in tenths; zero in the first second.
    pub requests_per_second_tenths: u64,
    pub elapsed_secs: u64,
}

pub fn progress_snapshot(counters: &ProgressCounters, total_scenarios: usize, elapsed_secs: u64) -> (r: ProgressSnapshot)
    requires
        counters.completed <= total_scenarios,
    ensures
        r.completed == counters.completed,
        r.total_scenarios == total_scenarios,
        r.total_requests == counters.total_requests,
        r.failed_requests == counters.failed_requests,
        r.percent_tenths == scaled_ratio(counters.completed as nat, total_scenarios as nat, 1000),
        r.requests_per_second_tenths == capped(
            scaled_ratio(counters.total_requests as nat, elapsed_secs as nat, 10),
        ),
        r.elapsed_secs == elapsed_secs,
{
    let percent: u64 = if total_scenarios == 0 {
        0
    } else {
        proof {
            lemma_scaled_ratio_bound(counters.completed as nat, total_scenarios as nat, 1000);
        }
        rounded_ratio(counters.completed as u64, total_scenarios as u64, 1000) as u64
    };
    let rate: u64 = if elapsed_secs == 0 {
        0
    } else {
        let q = rounded_ratio(counters.total_requests as u64, elapsed_secs, 10);
        if q > u64::MAX as u128 {
            u64::MAX
        } else {
            q as u64
        }
    };
    ProgressSnapshot {
        completed: counters.completed,
        total_scenarios,
        total_requests: counters.total_requests,
        failed_requests: counters.failed_requests,
        percent_tenths: percent,
        requests_per_second_tenths: rate,
        elapsed_secs,
    }
}

} // verus!
