use vstd::prelude::*;
use vstd::set_lib::*;

verus! {

/// What the aggregator hands back for an accepted ready report.
#[derive(Clone, Copy, Debug, PartialEq, Eq, Structural)]
pub struct AggregateSnapshot {
    /// True for the one report that closed the readiness barrier.
    pub just_became_ready: bool,
    pub reports_received: u64,
    pub cumulative_groups: u64,
}

/// Why a ready report was not counted.
#[derive(Clone, Copy, Debug, PartialEq, Eq, Structural)]
pub enum ReadinessError {
    /// The shard index has already reported.
    DuplicateReport,
    /// The shard index is not below the expected shard total.
    UnknownShard,
    /// Counting the report would overflow the running group count.
    GroupCountOverflow,
}

/// Mathematical model of the readiness state: the group count reported by
/// each shard index, and the running sum of those counts.
pub struct ReadinessView {
    pub expected: nat,
    pub reported: Map<int, nat>,
    pub cumulative: nat,
}

pub open spec fn initial_view(expected: nat) -> ReadinessView {
    ReadinessView { expected, reported: Map::empty(), cumulative: 0 }
}

/// Only indices below the expected total ever report.
pub open spec fn view_wf(v: ReadinessView) -> bool {
    v.reported.dom().subset_of(set_int_range(0, v.expected as int))
}

/// The barrier is closed once every expected shard has reported.
pub open spec fn view_all_ready(v: ReadinessView) -> bool {
    v.expected > 0 && v.reported.dom().len() == v.expected
}

pub open spec fn report_accepted(v: ReadinessView, idx: u64) -> bool {
    idx < v.expected && !v.reported.contains_key(idx as int)
}

/// State after a ready report: a first report of a known index is recorded,
/// anything else leaves the state as it was.
pub open spec fn report_next(v: ReadinessView, idx: u64, count: u64) -> ReadinessView {
    if report_accepted(v, idx) {
        ReadinessView {
            expected: v.expected,
            reported: v.reported.insert(idx as int, count as nat),
            cumulative: v.cumulative + count as nat,
        }
    } else {
        v
    }
}

/// Result of a ready report.
pub open spec fn report_outcome(v: ReadinessView, idx: u64, count: u64) -> Result<
    AggregateSnapshot,
    ReadinessError,
> {
    if idx >= v.expected {
        Err(ReadinessError::UnknownShard)
    } else if v.reported.contains_key(idx as int) {
        Err(ReadinessError::DuplicateReport)
    } else {
        let n = report_next(v, idx, count);
        Ok(
            AggregateSnapshot {
                just_became_ready: view_all_ready(n) && !view_all_ready(v),
                reports_received: n.reported.dom().len() as u64,
                cumulative_groups: n.cumulative as u64,
            },
        )
    }
}

pub open spec fn fired(r: Result<AggregateSnapshot, ReadinessError>) -> bool {
    match r {
        Ok(s) => s.just_became_ready,
        Err(_) => false,
    }
}

/// State after a sequence of reports, each given as (shard index, group count).
pub open spec fn after_reports(v: ReadinessView, reports: Seq<(u64, u64)>) -> ReadinessView
    decreases reports.len(),
{
    if reports.len() == 0 {
        v
    } else {
        after_reports(report_next(v, reports[0].0, reports[0].1), reports.drop_first())
    }
}

/// How many reports of a sequence signalled that the barrier closed.
pub open spec fn ready_signals(v: ReadinessView, reports: Seq<(u64, u64)>) -> nat
    decreases reports.len(),
{
    if reports.len() == 0 {
        0
    } else {
        (if fired(report_outcome(v, reports[0].0, reports[0].1)) {
            1nat
        } else {
            0nat
        }) + ready_signals(report_next(v, reports[0].0, reports[0].1), reports.drop_first())
    }
}

pub open spec fn has_report_for(reports: Seq<(u64, u64)>, i: int) -> bool {
    exists|k: int| 0 <= k < reports.len() && reports[k].0 == i
}

/// Every shard index below `expected` has at least one report in the sequence.
pub open spec fn covers_all(expected: nat, reports: Seq<(u64, u64)>) -> bool {
    forall|i: int| 0 <= i < expected ==> #[trigger] has_report_for(reports, i)
}

/// Once the barrier is closed every known index has reported.
pub proof fn lemma_all_ready_covers(v: ReadinessView)
    requires
        view_wf(v),
        view_all_ready(v),
    ensures
        v.reported.dom() =~= set_int_range(0, v.expected as int),
{
    lemma_int_range(0, v.expected as int);
    lemma_len_subset(v.reported.dom(), set_int_range(0, v.expected as int));
    lemma_subset_equality(v.reported.dom(), set_int_range(0, v.expected as int));
}

pub proof fn lemma_next_wf(v: ReadinessView, idx: u64, count: u64)
    requires
        view_wf(v),
    ensures
        view_wf(report_next(v, idx, count)),
        report_next(v, idx, count).expected == v.expected,
        v.reported.dom().subset_of(report_next(v, idx, count).reported.dom()),
        view_all_ready(v) ==> report_next(v, idx, count) == v,
        idx < v.expected ==> report_next(v, idx, count).reported.contains_key(idx as int),
{
    if view_all_ready(v) {
        lemma_all_ready_covers(v);
    }
}

proof fn lemma_signals_track_barrier(v: ReadinessView, reports: Seq<(u64, u64)>)
    requires
        view_wf(v),
    ensures
        view_wf(after_reports(v, reports)),
        after_reports(v, reports).expected == v.expected,
        v.reported.dom().subset_of(after_reports(v, reports).reported.dom()),
        forall|k: int|
            0 <= k < reports.len() && reports[k].0 < v.expected ==> after_reports(
                v,
                reports,
            ).reported.contains_key(reports[k].0 as int),
        ready_signals(v, reports) + (if view_all_ready(v) {
            1nat
        } else {
            0nat
        }) == (if view_all_ready(after_reports(v, reports)) {
            1nat
        } else {
            0nat
        }),
    decreases reports.len(),
{
    if reports.len() > 0 {
        let (i, c) = reports[0];
        let n = report_next(v, i, c);
        lemma_next_wf(v, i, c);
        lemma_signals_track_barrier(n, reports.drop_first());
        assert forall|k: int|
            0 <= k < reports.len() && reports[k].0 < v.expected implies after_reports(
                v,
                reports,
            ).reported.contains_key(reports[k].0 as int) by {
            if k > 0 {
                assert(reports.drop_first()[k - 1] == reports[k]);
            }
        }
        if report_accepted(v, i) {
            if view_all_ready(v) {
                lemma_all_ready_covers(v);
            }
            lemma_int_range(0, v.expected as int);
            lemma_len_subset(v.reported.dom(), set_int_range(0, v.expected as int));
        }
    }
}

/// Whatever the order of the reports, and whatever duplicates or unknown
/// indices they hold, at most one of them signals that the barrier closed;
/// when they cover every shard index below the expected total, exactly one does.
pub proof fn law_barrier_fires_once(expected: nat, reports: Seq<(u64, u64)>)
    ensures
        ready_signals(initial_view(expected), reports) <= 1,
        expected > 0 && covers_all(expected, reports) ==> ready_signals(
            initial_view(expected),
            reports,
        ) == 1,
{
    let v = initial_view(expected);
    assert(v.reported.dom() =~= Set::empty());
    lemma_signals_track_barrier(v, reports);
    let f = after_reports(v, reports);
    if expected > 0 && covers_all(expected, reports) {
        assert forall|i: int| set_int_range(0, expected as int).contains(i) implies f.reported.dom().contains(i) by {
            assert(has_report_for(reports, i));
            let k = choose|k: int| 0 <= k < reports.len() && reports[k].0 == i;
            assert(reports[k].0 < v.expected);
        }
        assert(f.reported.dom() =~= set_int_range(0, expected as int));
        lemma_int_range(0, expected as int);
    }
}

/// Sum of the group counts of a sequence of reports.
pub open spec fn total_groups(reports: Seq<(u64, u64)>) -> nat
    decreases reports.len(),
{
    if reports.len() == 0 {
        0
    } else {
        reports[0].1 as nat + total_groups(reports.drop_first())
    }
}

/// Each report of the sequence, when it comes, keeps the running sum within
/// `u64`: the condition under which the dispatcher's `ready` follows
/// `report_next` and `report_outcome` for every report.
pub open spec fn sums_fit(v: ReadinessView, reports: Seq<(u64, u64)>) -> bool
    decreases reports.len(),
{
    if reports.len() == 0 {
        true
    } else {
        v.cumulative + reports[0].1 <= u64::MAX && sums_fit(
            report_next(v, reports[0].0, reports[0].1),
            reports.drop_first(),
        )
    }
}

/// When the group counts of a sequence of reports, added to the running sum,
/// fit in `u64`, no report of it meets the overflow bound, so the barrier
/// law above holds of the dispatcher's `ready` called on each report in turn.
pub proof fn law_sums_fit_within_total(v: ReadinessView, reports: Seq<(u64, u64)>)
    requires
        v.cumulative + total_groups(reports) <= u64::MAX,
    ensures
        sums_fit(v, reports),
    decreases reports.len(),
{
    if reports.len() > 0 {
        law_sums_fit_within_total(
            report_next(v, reports[0].0, reports[0].1),
            reports.drop_first(),
        );
    }
}

/// A report for an index that already reported is refused, leaves the
/// cumulative count as it was and does not signal the barrier.
pub proof fn law_duplicate_is_ignored(v: ReadinessView, idx: u64, count: u64)
    requires
        v.reported.contains_key(idx as int),
        view_wf(v),
    ensures
        report_next(v, idx, count) == v,
        report_next(v, idx, count).cumulative == v.cumulative,
        report_outcome(v, idx, count) == Err::<AggregateSnapshot, ReadinessError>(
            ReadinessError::DuplicateReport,
        ),
        !fired(report_outcome(v, idx, count)),
{
}

/// Counts ready reports per shard and detects the moment all shards are in.
pub struct ShardReadinessAggregator {
    expected_shard_total: u64,
    counts: Vec<Option<u64>>,
    reports_received: u64,
    cumulative_groups: u64,
    all_ready: bool,
}

impl ShardReadinessAggregator {
    pub closed spec fn view(&self) -> ReadinessView {
        ReadinessView {
            expected: self.expected_shard_total as nat,
            reported: Map::new(
                |i: int| 0 <= i < self.counts@.len() && self.counts@[i] is Some,
                |i: int| self.counts@[i]->Some_0 as nat,
            ),
            cumulative: self.cumulative_groups as nat,
        }
    }

    proof fn lemma_reported_at(&self, i: int)
        ensures
            self.view().reported.contains_key(i) <==> (0 <= i < self.counts@.len()
                && self.counts@[i] is Some),
            self.view().reported.contains_key(i) ==> self.view().reported[i]
                == self.counts@[i]->Some_0 as nat,
    {
    }

    pub closed spec fn wf(&self) -> bool {
        &&& self.counts@.len() == self.expected_shard_total
        &&& self.reports_received == self.view().reported.dom().len()
        &&& self.all_ready == view_all_ready(self.view())
    }

    proof fn lemma_view_wf(&self)
        requires
            self.counts@.len() == self.expected_shard_total,
        ensures
            view_wf(self.view()),
            self.view().reported.dom().finite(),
            self.view().reported.dom().len() <= self.expected_shard_total,
    {
        let d = self.view().reported.dom();
        let r = set_int_range(0, self.counts@.len() as int);
        lemma_int_range(0, self.counts@.len() as int);
        assert(d.subset_of(r));
        lemma_len_subset(d, r);
    }

    /// Only indices below the expected total are recorded, so the number of
    /// reports received never exceeds it.
    pub proof fn lemma_reports_bounded(&self)
        requires
            self.wf(),
        ensures
            view_wf(self@),
            self@.reported.dom().finite(),
            self@.reported.dom().len() <= self@.expected,
    {
        self.lemma_view_wf();
    }

    pub fn new(expected_shard_total: u64) -> (r: Self)
        ensures
            r.wf(),
            r@ == initial_view(expected_shard_total as nat),
            view_wf(r@),
    {
        let mut counts: Vec<Option<u64>> = Vec::new();
        let mut i: u64 = 0;
        while i < expected_shard_total
            invariant
                i <= expected_shard_total,
                counts@.len() == i,
                forall|j: int| 0 <= j < counts@.len() ==> counts@[j] is None,
            decreases expected_shard_total - i,
        {
            counts.push(None);
            i = i + 1;
        }
        let r = ShardReadinessAggregator {
            expected_shard_total,
            counts,
            reports_received: 0,
            cumulative_groups: 0,
            all_ready: false,
        };
        assert(r.view().reported.dom() =~= Set::empty());
        assert(r.view().reported =~= Map::empty());
        r
    }

    pub fn expected_shard_total(&self) -> (r: u64)
        ensures
            r == self@.expected,
    {
        self.expected_shard_total
    }

    pub fn reports_received(&self) -> (r: u64)
        requires
            self.wf(),
        ensures
            r == self@.reported.dom().len(),
    {
        self.reports_received
    }

    pub fn cumulative_groups(&self) -> (r: u64)
        ensures
            r == self@.cumulative,
    {
        self.cumulative_groups
    }

    pub fn all_ready(&self) -> (r: bool)
        requires
            self.wf(),
        ensures
            r == view_all_ready(self@),
    {
        self.all_ready
    }

    /// Records a shard's ready report. The check for a duplicate, the counter
    /// update and the barrier test happen in one step on `&mut self`, so the
    /// barrier is signalled by exactly one report.
    pub fn report_shard_ready(&mut self, shard_index: u64, group_count: u64) -> (r: Result<
        AggregateSnapshot,
        ReadinessError,
    >)
        requires
            old(self).wf(),
            old(self)@.cumulative + group_count <= u64::MAX,
        ensures
            final(self).wf(),
            final(self)@ == report_next(old(self)@, shard_index, group_count),
            r == report_outcome(old(self)@, shard_index, group_count),
            view_wf(final(self)@),
            final(self)@.reported.dom().finite(),
            final(self)@.reported.dom().len() <= final(self)@.expected,
            view_all_ready(old(self)@) ==> r is Err && final(self)@ == old(self)@,
    {
        proof {
            self.lemma_view_wf();
        }
        proof {
            if view_all_ready(self@) {
                lemma_all_ready_covers(self@);
            }
        }
        if shard_index >= self.expected_shard_total {
            return Err(ReadinessError::UnknownShard);
        }
        let len: usize = self.counts.len();
        assert(shard_index < len);
        let ix = shard_index as usize;
        proof {
            self.lemma_reported_at(shard_index as int);
        }
        if self.counts[ix].is_some() {
            assert(self@.reported.dom().contains(shard_index as int));
            return Err(ReadinessError::DuplicateReport);
        }
        let ghost old_view = self@;
        assert(!old_view.reported.dom().contains(shard_index as int));
        proof {
            if view_all_ready(old_view) {
                lemma_all_ready_covers(old_view);
            }
        }
        self.counts.set(ix, Some(group_count));
        self.reports_received = self.reports_received + 1;
        self.cumulative_groups = self.cumulative_groups + group_count;
        let just_became_ready = self.reports_received == self.expected_shard_total;
        if just_became_ready {
            self.all_ready = true;
        }
        assert(self@.reported =~= old_view.reported.insert(shard_index as int, group_count as nat));
        proof {
            self.lemma_view_wf();
        }
        Ok(
            AggregateSnapshot {
                just_became_ready,
                reports_received: self.reports_received,
                cumulative_groups: self.cumulative_groups,
            },
        )
    }
}

} // verus!
