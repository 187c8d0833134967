//! Aggregate latency statistics and the rules that update them.
//!
//! A player's latency statistics are a tagged pair: either no report has
//! ever been merged (`Unreported`), or a cumulative total and click count
//! are both present (`Reported`). The tagged representation makes the
//! "one of the pair absent without the other" state unrepresentable.
//!
//! The merge rule folds one report into the stored statistics. The stored
//! average is carried as an exact cumulative sum (`total_latency`) together
//! with the click count, so the merge is exact integer arithmetic: the
//! average itself is `total_latency / click_count`, recovered by the caller
//! wherever a real-valued average is displayed or sent. The division guard
//! of the merge rule is the exact counterpart of "skip the update when the
//! new average is not a finite number": with finite totals that happens
//! exactly when the new click count is zero.

use vstd::prelude::*;

verus! {

/// A player's stored latency statistics: nothing reported yet, or a
/// cumulative latency sum (milliseconds) with the click count it covers.
#[derive(Clone, Copy, Debug, PartialEq, Eq, Structural)]
pub enum LatencyStats {
    Unreported,
    Reported { total_latency: u64, click_count: u64 },
}

/// One report submitted by a player's latency aggregator: the number of
/// clicks measured in the window and the exact sum of their latencies in
/// milliseconds (the reported average is `total_latency / clicks`).
#[derive(Clone, Copy, Debug, PartialEq, Eq, Structural)]
pub struct LatencyReport {
    pub clicks: u64,
    pub total_latency: u64,
}

impl LatencyStats {
    /// Stored statistics are well formed when a reported pair covers at
    /// least one click: the merge rule never stores a zero count.
    pub open spec fn wf(self) -> bool {
        match self {
            LatencyStats::Unreported => true,
            LatencyStats::Reported { total_latency, click_count } => click_count > 0,
        }
    }

    /// The stored cumulative latency sum, zero when nothing was reported.
    pub open spec fn spec_total(self) -> int {
        match self {
            LatencyStats::Unreported => 0,
            LatencyStats::Reported { total_latency, click_count } => total_latency as int,
        }
    }

    /// The stored click count, zero when nothing was reported.
    pub open spec fn spec_count(self) -> int {
        match self {
            LatencyStats::Unreported => 0,
            LatencyStats::Reported { total_latency, click_count } => click_count as int,
        }
    }
}

/// The merged statistics, or `None` when the merge is skipped because the
/// new click count would be zero (the stored record is then left as it is).
pub open spec fn spec_merge(old: LatencyStats, report: LatencyReport) -> Option<LatencyStats> {
    if old.spec_count() + report.clicks == 0 {
        None
    } else {
        Some(
            LatencyStats::Reported {
                total_latency: (old.spec_total() + report.total_latency) as u64,
                click_count: (old.spec_count() + report.clicks) as u64,
            },
        )
    }
}

/// Folds one latency report into the stored statistics.
///
/// The new pair is `newTotal = oldTotal + reportTotal` over
/// `newCount = oldCount + reportClicks`, each absent side counting as zero;
/// the merge is skipped (`None`) exactly when `newCount` is zero, which is
/// the only way the new average `newTotal / newCount` could fail to be a
/// finite number.
pub fn merge_latency(old: LatencyStats, report: LatencyReport) -> (r: Option<LatencyStats>)
    requires
        old.wf(),
        old.spec_total() + report.total_latency <= u64::MAX,
        old.spec_count() + report.clicks <= u64::MAX,
    ensures
        r == spec_merge(old, report),
        r is None <==> old is Unreported && report.clicks == 0,
        r is Some ==> r->0.wf() && r->0.spec_total() == old.spec_total() + report.total_latency
            && r->0.spec_count() == old.spec_count() + report.clicks,
{
    let (old_total, old_count): (u64, u64) = match old {
        LatencyStats::Unreported => (0, 0),
        LatencyStats::Reported { total_latency, click_count } => (total_latency, click_count),
    };
    let new_count: u64 = old_count + report.clicks;
    if new_count == 0 {
        None
    } else {
        Some(
            LatencyStats::Reported {
                total_latency: old_total + report.total_latency,
                click_count: new_count,
            },
        )
    }
}

/// The click counter after one more click: an absent counter counts as
/// zero, and the increment is atomic on the store's side.
pub open spec fn spec_clicks_or_zero(clicks: Option<u64>) -> int {
    match clicks {
        Some(c) => c as int,
        None => 0,
    }
}

/// One atomic click increment: `clickCount = (clickCount or 0) + 1`.
pub fn click_increment(clicks: Option<u64>) -> (r: u64)
    requires
        spec_clicks_or_zero(clicks) < u64::MAX,
    ensures
        r == spec_clicks_or_zero(clicks) + 1,
{
    match clicks {
        Some(c) => c + 1,
        None => 1,
    }
}

/// The click counter after `n` further increments have been applied to
/// `prior`, one at a time.
pub open spec fn counter_after(prior: Option<u64>, n: nat) -> Option<u64>
    decreases n,
{
    if n == 0 {
        prior
    } else {
        Some((spec_clicks_or_zero(counter_after(prior, (n - 1) as nat)) + 1) as u64)
    }
}

/// `n` successful clicks starting from an absent counter leave the counter
/// at exactly `n`. Every click performs the same atomic increment, so the
/// order in which concurrent calls reach the store cannot change the sum:
/// no update is lost.
pub proof fn lemma_click_counter(n: nat)
    requires
        n <= u64::MAX,
    ensures
        n > 0 ==> counter_after(None, n) == Some(n as u64),
    decreases n,
{
    if n > 0 {
        lemma_click_counter((n - 1) as nat);
        if n == 1 {
            assert(counter_after(None, 0) == None::<u64>);
        }
        assert(counter_after(None, n) == Some(
            (spec_clicks_or_zero(counter_after(None, (n - 1) as nat)) + 1) as u64,
        ));
    }
}

} // verus!
