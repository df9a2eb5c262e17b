//! Data model and the aggregate statistics kept while a batch of URL probes
//! runs: success/failure counters, a status-code histogram, and the progress
//! snapshots handed to the caller as each probe completes.

use vstd::prelude::*;

verus! {

use vstd::multiset::Multiset;

/// One input unit of a batch: an identifier and the raw URL string to probe.
pub struct CsvRecord {
    pub id: String,
    pub url: String,
}

/// The outcome of probing a single record's URL. `response_code` is 0 when
/// the URL was invalid or the request could not be completed.
pub struct UrlResult {
    pub id: String,
    pub domain: String,
    pub protocol: String,
    pub response_code: u16,
    pub response_time: u64,
    pub full_response: String,
}

/// One progress event: the outcome of the probe that just finished together
/// with a point-in-time copy of the aggregate counters and the histogram.
pub struct ProgressUpdate {
    pub success_count: u32,
    pub unsuccess_count: u32,
    pub total_records: u32,
    pub records_processed: u32,
    pub result: UrlResult,
    pub status_code_stats: Vec<(u16, u32)>,
}

/// Mathematical model of the aggregate state: unbounded counters and the
/// histogram as a map from status code to count.
pub ghost struct StatsView {
    pub success: nat,
    pub failure: nat,
    pub total: nat,
    pub processed: nat,
    pub hist: Map<u16, nat>,
}

/// Sum of all histogram bucket counts.
pub open spec fn hist_sum(h: Seq<(u16, u32)>) -> int
    decreases h.len(),
{
    if h.len() == 0 {
        0
    } else {
        hist_sum(h.drop_last()) + h.last().1
    }
}

/// Every status code occupies at most one histogram entry.
pub open spec fn hist_keys_unique(h: Seq<(u16, u32)>) -> bool {
    forall|i: int, j: int| 0 <= i < j < h.len() ==> (#[trigger] h[i]).0 != (#[trigger] h[j]).0
}

/// Every histogram entry holds a positive count: a bucket is created only
/// when its first outcome arrives.
pub open spec fn hist_counts_positive(h: Seq<(u16, u32)>) -> bool {
    forall|i: int| 0 <= i < h.len() ==> (#[trigger] h[i]).1 >= 1
}

/// The histogram entries read as a map from status code to count.
pub open spec fn hist_map(h: Seq<(u16, u32)>) -> Map<u16, nat>
    decreases h.len(),
{
    if h.len() == 0 {
        Map::empty()
    } else {
        hist_map(h.drop_last()).insert(h.last().0, h.last().1 as nat)
    }
}

/// Count recorded for status code `c`, zero when the bucket does not exist.
pub open spec fn hist_get(m: Map<u16, nat>, c: u16) -> nat {
    if m.dom().contains(c) {
        m[c]
    } else {
        0
    }
}

/// One outcome folded into the model: the processed count always rises by
/// one, the success counter rises exactly on status 200, the failure counter
/// otherwise, and the bucket of the outcome's status code rises by one.
pub open spec fn step_stats(v: StatsView, code: u16) -> StatsView {
    StatsView {
        success: if code == 200 {
            v.success + 1
        } else {
            v.success
        },
        failure: if code == 200 {
            v.failure
        } else {
            v.failure + 1
        },
        total: v.total,
        processed: v.processed + 1,
        hist: v.hist.insert(code, hist_get(v.hist, code) + 1),
    }
}

/// A whole batch folded into the model, one completed outcome at a time, in
/// the order the probes completed.
pub open spec fn run_stats(v: StatsView, codes: Seq<u16>) -> StatsView
    decreases codes.len(),
{
    if codes.len() == 0 {
        v
    } else {
        step_stats(run_stats(v, codes.drop_last()), codes.last())
    }
}

/// The model of a fresh aggregate state for a batch of `total` records.
pub open spec fn init_stats(total: nat) -> StatsView {
    StatsView { success: 0, failure: 0, total: total, processed: 0, hist: Map::empty() }
}

/// How many of the completed outcomes carried status code `c`.
pub open spec fn count_code(codes: Seq<u16>, c: u16) -> nat
    decreases codes.len(),
{
    if codes.len() == 0 {
        0
    } else {
        count_code(codes.drop_last(), c) + if codes.last() == c {
            1nat
        } else {
            0nat
        }
    }
}

/// Law: folding a batch of completed outcomes into the model raises the
/// processed count by exactly the number of outcomes, the success counter by
/// the number of 200s, the failure counter by the rest, leaves the batch
/// size untouched, and gives every histogram bucket exactly the number of
/// outcomes that carried its code.
pub proof fn lemma_run_stats_totals(v: StatsView, codes: Seq<u16>)
    ensures
        run_stats(v, codes).total == v.total,
        run_stats(v, codes).processed == v.processed + codes.len(),
        run_stats(v, codes).success == v.success + count_code(codes, 200),
        run_stats(v, codes).failure == v.failure + codes.len() - count_code(codes, 200),
        forall|c: u16| #[trigger]
            hist_get(run_stats(v, codes).hist, c) == hist_get(v.hist, c) + count_code(codes, c),
        forall|c: u16| #[trigger]
            run_stats(v, codes).hist.dom().contains(c) <==> v.hist.dom().contains(c) || count_code(
                codes,
                c,
            ) > 0,
    decreases codes.len(),
{
    if codes.len() > 0 {
        lemma_run_stats_totals(v, codes.drop_last());
        let rh = run_stats(v, codes.drop_last()).hist;
        let last = codes.last();
        assert forall|c: u16| #[trigger]
            hist_get(run_stats(v, codes).hist, c) == hist_get(v.hist, c) + count_code(
                codes,
                c,
            ) by {
            assert(hist_get(rh, c) == hist_get(v.hist, c) + count_code(codes.drop_last(), c));
            if c != last {
                assert(hist_get(run_stats(v, codes).hist, c) == hist_get(rh, c));
            }
        }
        assert forall|c: u16| #[trigger]
            run_stats(v, codes).hist.dom().contains(c) <==> v.hist.dom().contains(c) || count_code(
                codes,
                c,
            ) > 0 by {
            assert(rh.dom().contains(c) <==> v.hist.dom().contains(c) || count_code(
                codes.drop_last(),
                c,
            ) > 0);
        }
    }
}

/// Law: the per-code tally over a completion sequence is the multiset count,
/// so it does not depend on the order in which the probes completed.
pub proof fn lemma_count_code_multiset(codes: Seq<u16>, c: u16)
    ensures
        count_code(codes, c) == codes.to_multiset().count(c),
    decreases codes.len(),
{
    broadcast use vstd::seq_lib::group_to_multiset_ensures;
    broadcast use vstd::multiset::group_multiset_axioms;

    if codes.len() == 0 {
        assert(codes.to_multiset() =~= Multiset::<u16>::empty());
    } else {
        lemma_count_code_multiset(codes.drop_last(), c);
        assert(codes =~= codes.drop_last().push(codes.last()));
        assert(codes.to_multiset() =~= codes.drop_last().to_multiset().insert(codes.last()));
    }
}

/// Law: the final aggregate state is independent of completion order. Two
/// completion sequences made of the same outcomes, however interleaved,
/// fold to the same counters and the same histogram: no concurrent
/// completion schedule can gain or lose an increment.
pub proof fn lemma_run_stats_order_independent(v: StatsView, a: Seq<u16>, b: Seq<u16>)
    requires
        a.to_multiset() == b.to_multiset(),
    ensures
        run_stats(v, a) == run_stats(v, b),
{
    broadcast use vstd::seq_lib::group_to_multiset_ensures;

    assert(a.len() == a.to_multiset().len());
    assert(b.len() == b.to_multiset().len());
    lemma_run_stats_totals(v, a);
    lemma_run_stats_totals(v, b);
    let ra = run_stats(v, a);
    let rb = run_stats(v, b);
    assert forall|c: u16| #[trigger] count_code(a, c) == count_code(b, c) by {
        lemma_count_code_multiset(a, c);
        lemma_count_code_multiset(b, c);
    }
    assert(ra.hist =~= rb.hist) by {
        assert forall|c: u16| ra.hist.dom().contains(c) implies rb.hist.dom().contains(c) by {
            assert(count_code(a, c) == count_code(b, c));
        }
        assert forall|c: u16| rb.hist.dom().contains(c) implies ra.hist.dom().contains(c) by {
            assert(count_code(a, c) == count_code(b, c));
        }
        assert(ra.hist.dom() =~= rb.hist.dom());
        assert forall|c: u16| ra.hist.dom().contains(c) implies ra.hist[c] == rb.hist[c] by {
            assert(hist_get(ra.hist, c) == hist_get(rb.hist, c));
        }
    }
}

/// Law: a full batch folded from a fresh state processes every record
/// exactly once — the processed count reaches the batch size, successes and
/// failures partition the batch, and each histogram bucket holds the tally
/// of its code.
pub proof fn lemma_batch_totals(total: nat, codes: Seq<u16>)
    requires
        codes.len() == total,
    ensures
        run_stats(init_stats(total), codes).processed == total,
        run_stats(init_stats(total), codes).success + run_stats(init_stats(total), codes).failure
            == total,
        run_stats(init_stats(total), codes).total == total,
        forall|c: u16| #[trigger]
            hist_get(run_stats(init_stats(total), codes).hist, c) == count_code(codes, c),
{
    lemma_run_stats_totals(init_stats(total), codes);
}

/// Law: in a final snapshot — one in which every record of the batch has
/// been processed — successes and failures partition the batch, and the
/// histogram buckets sum to the batch size.
pub proof fn lemma_final_snapshot(s: AppState)
    requires
        s.wf(),
        s.records_processed == s.total_records,
    ensures
        s.success_count + s.unsuccess_count == s.total_records,
        hist_sum(s.status_code_stats@) == s.total_records,
{
}

proof fn lemma_hist_sum_nonneg(h: Seq<(u16, u32)>)
    ensures
        hist_sum(h) >= 0,
    decreases h.len(),
{
    if h.len() > 0 {
        lemma_hist_sum_nonneg(h.drop_last());
    }
}

proof fn lemma_hist_entry_le_sum(h: Seq<(u16, u32)>, i: int)
    requires
        0 <= i < h.len(),
    ensures
        h[i].1 <= hist_sum(h),
    decreases h.len(),
{
    if i == h.len() - 1 {
        lemma_hist_sum_nonneg(h.drop_last());
    } else {
        lemma_hist_entry_le_sum(h.drop_last(), i);
    }
}

/// The domain of the histogram map is exactly the set of codes that occupy
/// an entry.
proof fn lemma_hist_map_dom(h: Seq<(u16, u32)>, c: u16)
    ensures
        hist_map(h).dom().contains(c) <==> exists|i: int| 0 <= i < h.len() && h[i].0 == c,
    decreases h.len(),
{
    if h.len() > 0 {
        lemma_hist_map_dom(h.drop_last(), c);
        if h.last().0 == c {
            assert(h[h.len() - 1].0 == c);
        } else if exists|i: int| 0 <= i < h.len() && h[i].0 == c {
            let i = choose|i: int| 0 <= i < h.len() && h[i].0 == c;
            assert(h.drop_last()[i] == h[i]);
        }
    }
}

/// With unique keys, the map reads back exactly the count stored in the
/// entry that carries the key.
proof fn lemma_hist_map_lookup(h: Seq<(u16, u32)>, k: int)
    requires
        hist_keys_unique(h),
        0 <= k < h.len(),
    ensures
        hist_map(h).dom().contains(h[k].0),
        hist_map(h)[h[k].0] == h[k].1 as nat,
    decreases h.len(),
{
    if k == h.len() - 1 {
    } else {
        lemma_hist_map_lookup(h.drop_last(), k);
        assert(h.drop_last()[k] == h[k]);
        assert(h.last().0 != h[k].0);
    }
}

/// Appending a fresh bucket inserts its key into the map.
proof fn lemma_hist_map_push(h: Seq<(u16, u32)>, e: (u16, u32))
    ensures
        hist_map(h.push(e)) == hist_map(h).insert(e.0, e.1 as nat),
        hist_sum(h.push(e)) == hist_sum(h) + e.1,
{
    assert(h.push(e).drop_last() =~= h);
    assert(h.push(e).last() == e);
}

/// Overwriting the entry that carries `h[k].0` updates just that key of the
/// map and shifts the sum by the difference of the counts.
proof fn lemma_hist_map_update(h: Seq<(u16, u32)>, k: int, e: (u16, u32))
    requires
        hist_keys_unique(h),
        0 <= k < h.len(),
        e.0 == h[k].0,
    ensures
        hist_map(h.update(k, e)) =~= hist_map(h).insert(e.0, e.1 as nat),
        hist_sum(h.update(k, e)) == hist_sum(h) - h[k].1 + e.1,
    decreases h.len(),
{
    let u = h.update(k, e);
    if k == h.len() - 1 {
        assert(u.drop_last() =~= h.drop_last());
        assert(u.last() == e);
        assert(hist_map(u) =~= hist_map(h).insert(e.0, e.1 as nat));
    } else {
        assert(u.drop_last() =~= h.drop_last().update(k, e));
        assert(u.last() == h.last());
        lemma_hist_map_update(h.drop_last(), k, e);
        assert(h.drop_last()[k] == h[k]);
        // the overwritten key differs from the last entry's key
        assert(h.last().0 != e.0);
        assert(hist_map(u) =~= hist_map(h).insert(e.0, e.1 as nat));
    }
}

/// Copies the histogram entries, giving the snapshot its own storage.
fn copy_hist(h: &Vec<(u16, u32)>) -> (r: Vec<(u16, u32)>)
    ensures
        r@ == h@,
{
    let mut r: Vec<(u16, u32)> = Vec::new();
    let mut i: usize = 0;
    while i < h.len()
        invariant
            0 <= i <= h@.len(),
            r@ == h@.subrange(0, i as int),
        decreases h@.len() - i,
    {
        r.push(h[i]);
        i += 1;
    }
    proof {
        assert(r@ =~= h@);
    }
    r
}

/// Adds one outcome with status `code` to the histogram: the bucket's count
/// rises by one, a missing bucket is created with count one.
fn bump_bucket(hist: &mut Vec<(u16, u32)>, code: u16)
    requires
        hist_keys_unique(old(hist)@),
        hist_counts_positive(old(hist)@),
        hist_sum(old(hist)@) < u32::MAX,
    ensures
        hist_keys_unique(final(hist)@),
        hist_counts_positive(final(hist)@),
        hist_sum(final(hist)@) == hist_sum(old(hist)@) + 1,
        hist_map(final(hist)@) == hist_map(old(hist)@).insert(
            code,
            hist_get(hist_map(old(hist)@), code) + 1,
        ),
{
    let ghost h0 = hist@;
    let mut i: usize = 0;
    while i < hist.len()
        invariant
            0 <= i <= hist@.len(),
            hist@ == h0,
            old(hist)@ == h0,
            hist_keys_unique(h0),
            hist_counts_positive(h0),
            hist_sum(h0) < u32::MAX,
            forall|j: int| 0 <= j < i ==> (#[trigger] h0[j]).0 != code,
        decreases hist@.len() - i,
    {
        if hist[i].0 == code {
            let c = hist[i].1;
            proof {
                lemma_hist_entry_le_sum(h0, i as int);
                lemma_hist_map_lookup(h0, i as int);
                lemma_hist_map_update(h0, i as int, (code, (c + 1) as u32));
            }
            hist.set(i, (code, c + 1));
            return;
        }
        i += 1;
    }
    proof {
        lemma_hist_map_dom(h0, code);
        lemma_hist_map_push(h0, (code, 1u32));
    }
    hist.push((code, 1));
}

/// The shared per-batch aggregate state. All counters start at zero;
/// `set_total` fixes the batch size once, and `record_outcome` folds one
/// probe outcome at a time into the counters and the histogram.
pub struct AppState {
    pub success_count: u32,
    pub unsuccess_count: u32,
    pub total_records: u32,
    pub records_processed: u32,
    pub status_code_stats: Vec<(u16, u32)>,
}

impl View for AppState {
    type V = StatsView;

    open spec fn view(&self) -> StatsView {
        StatsView {
            success: self.success_count as nat,
            failure: self.unsuccess_count as nat,
            total: self.total_records as nat,
            processed: self.records_processed as nat,
            hist: hist_map(self.status_code_stats@),
        }
    }
}

impl AppState {
    /// Internal consistency: the counters partition the processed records,
    /// the histogram accounts for every processed record exactly once, and
    /// no more records were processed than the batch holds.
    pub open spec fn wf(self) -> bool {
        &&& self.success_count + self.unsuccess_count == self.records_processed
        &&& hist_sum(self.status_code_stats@) == self.records_processed
        &&& hist_keys_unique(self.status_code_stats@)
        &&& hist_counts_positive(self.status_code_stats@)
        &&& self.records_processed <= self.total_records
    }

    /// Fresh aggregate state: everything zero, no histogram buckets.
    pub fn new() -> (s: AppState)
        ensures
            s.wf(),
            s@ == (StatsView {
                success: 0,
                failure: 0,
                total: 0,
                processed: 0,
                hist: Map::<u16, nat>::empty(),
            }),
    {
        let s = AppState {
            success_count: 0,
            unsuccess_count: 0,
            total_records: 0,
            records_processed: 0,
            status_code_stats: Vec::new(),
        };
        proof {
            assert(s@.hist =~= Map::<u16, nat>::empty());
        }
        s
    }

    /// Fixes the batch size. Called once, before any outcome is recorded.
    pub fn set_total(&mut self, n: u32)
        requires
            old(self).wf(),
            old(self).records_processed == 0,
        ensures
            final(self).wf(),
            final(self)@ == (StatsView { total: n as nat, ..old(self)@ }),
    {
        self.total_records = n;
    }

    /// A consistent point-in-time copy of every counter and the histogram,
    /// paired with the outcome whose completion it reports.
    pub fn snapshot(&self, result: UrlResult) -> (update: ProgressUpdate)
        ensures
            update.success_count == self.success_count,
            update.unsuccess_count == self.unsuccess_count,
            update.total_records == self.total_records,
            update.records_processed == self.records_processed,
            update.status_code_stats@ == self.status_code_stats@,
            update.result == result,
    {
        let stats = copy_hist(&self.status_code_stats);
        ProgressUpdate {
            success_count: self.success_count,
            unsuccess_count: self.unsuccess_count,
            total_records: self.total_records,
            records_processed: self.records_processed,
            result,
            status_code_stats: stats,
        }
    }

    /// Folds one completed probe into the aggregate state and returns the
    /// progress event for it: the counters move as `step_stats` says, and
    /// the event carries the outcome together with the state as of this
    /// very update, so the caller's own increment is never stale.
    pub fn record_outcome(&mut self, result: UrlResult) -> (update: ProgressUpdate)
        requires
            old(self).wf(),
            old(self).records_processed < old(self).total_records,
        ensures
            final(self).wf(),
            final(self)@ == step_stats(old(self)@, result.response_code),
            final(self).total_records == old(self).total_records,
            final(self).records_processed == old(self).records_processed + 1,
            update.success_count == final(self).success_count,
            update.unsuccess_count == final(self).unsuccess_count,
            update.total_records == final(self).total_records,
            update.records_processed == final(self).records_processed,
            update.status_code_stats@ == final(self).status_code_stats@,
            update.result == result,
    {
        let code = result.response_code;
        if code == 200 {
            self.success_count = self.success_count + 1;
        } else {
            self.unsuccess_count = self.unsuccess_count + 1;
        }
        self.records_processed = self.records_processed + 1;
        bump_bucket(&mut self.status_code_stats, code);
        self.snapshot(result)
    }
}

} // verus!
