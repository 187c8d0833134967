//! Per-player latency aggregation.
//!
//! Each player owns one aggregator. Samples (one measured round-trip time
//! per successfully completed click, in milliseconds) arrive in order
//! through the player's channel; the aggregator batches them into a
//! window, and roughly once a second the window is turned into one report
//! and cleared. A failed click never produces a sample, so it never enters
//! a window.
//!
//! Conservation of samples is part of the aggregator's well-formedness and
//! is preserved by every operation: the clicks counted by all reports
//! handed out so far, plus the samples still in the window, equal exactly
//! the samples received. Clearing an empty window is a no-op, so no sample
//! is ever dropped by the aggregator itself (a report whose network send
//! later fails is dropped by the caller, not here).

use vstd::prelude::*;

use crate::schedule::NANOS_PER_SEC;
use crate::stats::LatencyReport;

verus! {

/// The sum of a window of latency samples.
pub open spec fn seq_sum(s: Seq<u64>) -> int
    decreases s.len(),
{
    if s.len() == 0 {
        0
    } else {
        seq_sum(s.drop_last()) + s.last()
    }
}

/// One player's latency aggregator: the current window, its running sum,
/// and the next scheduled report instant (nanoseconds).
pub struct LatencyAggregator {
    /// The samples accumulated since the last report, in arrival order.
    pub window: Vec<u64>,
    /// The sum of the samples in `window`.
    pub total: u64,
    /// The earliest instant after which the next arriving sample triggers
    /// a report.
    pub next_report: u64,
    /// How many samples have ever been received.
    pub received: Ghost<nat>,
    /// The clicks counted by all reports handed out so far.
    pub reported_clicks: Ghost<nat>,
}

impl LatencyAggregator {
    /// The aggregator's invariant: the running sum matches the window, and
    /// every received sample is accounted for — either already counted by
    /// a report that was handed out, or still waiting in the window.
    pub open spec fn wf(self) -> bool {
        &&& self.total == seq_sum(self.window@)
        &&& self.reported_clicks@ + self.window@.len() == self.received@
    }

    /// A fresh aggregator for a player whose run starts at `now`: empty
    /// window, first report scheduled one second from now.
    pub fn new(now: u64) -> (r: LatencyAggregator)
        requires
            now + NANOS_PER_SEC <= u64::MAX,
        ensures
            r.wf(),
            r.window@.len() == 0,
            r.next_report == now + NANOS_PER_SEC,
            r.received@ == 0,
            r.reported_clicks@ == 0,
    {
        LatencyAggregator {
            window: Vec::new(),
            total: 0,
            next_report: now + NANOS_PER_SEC,
            received: Ghost(0),
            reported_clicks: Ghost(0),
        }
    }

    /// Report-and-clear: turns the current window into one report and
    /// empties it. On an empty window this does nothing at all — no report
    /// (so no network call) and no state change, in particular the next
    /// report instant is not moved. On a non-empty window the report
    /// carries the window's sample count and exact latency sum, and the
    /// window is cleared unconditionally: whether the caller's send later
    /// succeeds or fails, the samples are not retried.
    pub fn report_and_clear(&mut self) -> (r: Option<LatencyReport>)
        requires
            old(self).wf(),
        ensures
            final(self).wf(),
            final(self).next_report == old(self).next_report,
            final(self).received@ == old(self).received@,
            old(self).window@.len() == 0 ==> r is None && *final(self) == *old(self),
            old(self).window@.len() > 0 ==> {
                &&& r == Some(
                    LatencyReport {
                        clicks: old(self).window@.len() as u64,
                        total_latency: old(self).total,
                    },
                )
                &&& final(self).window@.len() == 0
                &&& final(self).reported_clicks@ == old(self).reported_clicks@ + old(
                    self,
                ).window@.len()
            },
    {
        if self.window.len() == 0 {
            return None;
        }
        let clicks: usize = self.window.len();
        let report = LatencyReport { clicks: clicks as u64, total_latency: self.total };
        self.window.clear();
        self.total = 0;
        proof {
            self.reported_clicks@ = self.reported_clicks@ + clicks as nat;
        }
        Some(report)
    }

    /// The aggregator's step for one received sample: append it to the
    /// window; then, if `now` has passed the next scheduled report
    /// instant, report-and-clear and schedule the next report one second
    /// after `now`. Returns the report to be sent, if one is due.
    pub fn on_sample(&mut self, sample: u64, now: u64) -> (r: Option<LatencyReport>)
        requires
            old(self).wf(),
            old(self).total + sample <= u64::MAX,
            old(self).window@.len() < usize::MAX,
            now + NANOS_PER_SEC <= u64::MAX,
        ensures
            final(self).wf(),
            final(self).received@ == old(self).received@ + 1,
            now > old(self).next_report ==> {
                &&& r == Some(
                    LatencyReport {
                        clicks: (old(self).window@.len() + 1) as u64,
                        total_latency: (old(self).total + sample) as u64,
                    },
                )
                &&& final(self).window@.len() == 0
                &&& final(self).next_report == now + NANOS_PER_SEC
                &&& final(self).reported_clicks@ == old(self).reported_clicks@ + old(
                    self,
                ).window@.len() + 1
            },
            now <= old(self).next_report ==> {
                &&& r is None
                &&& final(self).window@ == old(self).window@.push(sample)
                &&& final(self).next_report == old(self).next_report
                &&& final(self).reported_clicks@ == old(self).reported_clicks@
            },
    {
        proof {
            assert(self.window@.push(sample).drop_last() =~= self.window@);
        }
        self.window.push(sample);
        self.total = self.total + sample;
        proof {
            self.received@ = self.received@ + 1;
        }
        if now > self.next_report {
            let r = self.report_and_clear();
            self.next_report = now + NANOS_PER_SEC;
            r
        } else {
            None
        }
    }
}

} // verus!
