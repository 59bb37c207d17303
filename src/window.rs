use crate::hdr::{
    bounds, level_of, peak, resizes, hdr_add, hdr_clear, hdr_len, hdr_new_from, hdr_new_with_bounds,
    hdr_saturating_record, samples, saturating_len, Distribution,
};

use vstd::multiset::Multiset;
use vstd::prelude::*;

verus! {

/// Significant decimal digits that every histogram bucket keeps.
pub const SIGNIFICANT_DIGITS: u8 = 3;

/// The configuration of every histogram bucket: values from 1 to `u64::MAX` at three
/// significant digits.
pub open spec fn standard_bounds() -> (u64, u64, u8) {
    (1, u64::MAX, SIGNIFICANT_DIGITS)
}

/// The value a window records for `v`: `u64::MAX` is recorded as `u64::MAX - 1`, which the
/// histogram cannot tell apart from it at its precision, so that bucket merges never refuse
/// a bucket.
pub open spec fn kept_level(v: u64) -> u64 {
    if v == u64::MAX {
        (u64::MAX - 1) as u64
    } else {
        v
    }
}

/// The level at which a bucket counts a recorded value.
pub open spec fn stored_level(v: u64) -> u64 {
    level_of(standard_bounds(), kept_level(v))
}

/// All the samples of a sequence of buckets together.
pub open spec fn merged(bs: Seq<Multiset<u64>>) -> Multiset<u64>
    decreases bs.len(),
{
    if bs.len() == 0 {
        Multiset::empty()
    } else {
        merged(bs.drop_last()).add(bs.last())
    }
}

/// The mathematical state of a windowed histogram.
pub struct WindowModel {
    pub buckets: Seq<Multiset<u64>>,
    pub index: nat,
    pub last_upkeep: nat,
    pub granularity: nat,
    /// The wrapping sum of every value recorded.
    pub sum: u64,
}

impl WindowModel {
    pub open spec fn wf(self) -> bool {
        &&& self.buckets.len() >= 1
        &&& self.index < self.buckets.len()
        &&& self.granularity > 0
    }

    /// Whether an upkeep at time `at` moves the window on.
    pub open spec fn due(self, at: nat) -> bool {
        at >= self.last_upkeep + self.granularity
    }

    /// The state after an upkeep at time `at`: once a granularity interval has passed since
    /// the last advance, the next bucket (in ring order) becomes the writer and is emptied.
    pub open spec fn upkept(self, at: nat) -> WindowModel {
        if self.due(at) {
            let next = if self.index + 1 < self.buckets.len() {
                (self.index + 1) as nat
            } else {
                0
            };
            WindowModel {
                buckets: self.buckets.update(next as int, Multiset::empty()),
                index: next,
                last_upkeep: at,
                granularity: self.granularity,
                sum: self.sum,
            }
        } else {
            self
        }
    }

    /// The state after recording `v`: it joins the current bucket, at its stored level.
    pub open spec fn recorded(self, v: u64) -> WindowModel {
        WindowModel {
            buckets: self.buckets.update(
                self.index as int,
                self.buckets[self.index as int].insert(stored_level(v)),
            ),
            sum: self.sum.wrapping_add(v),
            ..self
        }
    }

    /// The samples a snapshot holds: those of every bucket.
    pub open spec fn contents(self) -> Multiset<u64> {
        merged(self.buckets)
    }
}

/// The number of buckets for a window and a granularity: one per granularity interval that
/// fits the window, plus one, so that the window is always covered in full.
pub open spec fn bucket_count(window: nat, granularity: nat) -> nat
    recommends
        granularity > 0,
{
    window / granularity + 1
}

/// The state after a sequence of upkeeps, in order.
pub open spec fn upkept_all(w: WindowModel, ts: Seq<nat>) -> WindowModel
    decreases ts.len(),
{
    if ts.len() == 0 {
        w
    } else {
        upkept_all(w, ts.drop_last()).upkept(ts.last())
    }
}

/// The state after recording `v` a number of times.
pub open spec fn recorded_times(w: WindowModel, v: u64, n: nat) -> WindowModel
    decreases n,
{
    if n == 0 {
        w
    } else {
        recorded_times(w, v, (n - 1) as nat).recorded(v)
    }
}

/// Position `k` steps after `i` in a ring of `n`, for `i < n` and `k <= n`.
pub open spec fn ring_step(i: nat, k: nat, n: nat) -> nat {
    if i + k < n {
        i + k
    } else {
        (i + k - n) as nat
    }
}

proof fn lemma_merged_insert(bs: Seq<Multiset<u64>>, i: int, v: u64)
    requires
        0 <= i < bs.len(),
    ensures
        merged(bs.update(i, bs[i].insert(v))) =~= merged(bs).insert(v),
    decreases bs.len(),
{
    let us = bs.update(i, bs[i].insert(v));
    if i == bs.len() - 1 {
        assert(us.drop_last() =~= bs.drop_last());
    } else {
        assert(us.drop_last() =~= bs.drop_last().update(i, bs.drop_last()[i].insert(v)));
        lemma_merged_insert(bs.drop_last(), i, v);
    }
}

proof fn lemma_merged_empty(bs: Seq<Multiset<u64>>)
    requires
        forall|i: int| 0 <= i < bs.len() ==> #[trigger] bs[i] =~= Multiset::<u64>::empty(),
    ensures
        merged(bs) =~= Multiset::<u64>::empty(),
    decreases bs.len(),
{
    if bs.len() > 0 {
        lemma_merged_empty(bs.drop_last());
    }
}

proof fn lemma_merged_holds_bucket(bs: Seq<Multiset<u64>>, i: int, v: u64)
    requires
        0 <= i < bs.len(),
    ensures
        merged(bs).count(v) >= bs[i].count(v),
    decreases bs.len(),
{
    if i < bs.len() - 1 {
        lemma_merged_holds_bucket(bs.drop_last(), i, v);
    }
}

proof fn lemma_upkept_shape(w: WindowModel, at: nat)
    requires
        w.wf(),
    ensures
        w.upkept(at).wf(),
        w.upkept(at).buckets.len() == w.buckets.len(),
        w.upkept(at).granularity == w.granularity,
        w.due(at) ==> w.upkept(at).index == ring_step(w.index, 1, w.buckets.len()),
        w.due(at) ==> w.upkept(at).last_upkeep == at,
        !w.due(at) ==> w.upkept(at) == w,
{
}

/// Returns nothing: after `j` upkeeps that each came a full granularity interval after the
/// one before, the `j` buckets following the start position are empty.
proof fn lemma_rotation_clears(w: WindowModel, ts: Seq<nat>)
    requires
        w.wf(),
        ts.len() <= w.buckets.len(),
        ts.len() > 0 ==> ts[0] >= w.last_upkeep + w.granularity,
        forall|j: int| 0 < j < ts.len() ==> #[trigger] ts[j] >= ts[j - 1] + w.granularity,
    ensures
        upkept_all(w, ts).wf(),
        upkept_all(w, ts).buckets.len() == w.buckets.len(),
        upkept_all(w, ts).granularity == w.granularity,
        upkept_all(w, ts).index == ring_step(w.index, ts.len(), w.buckets.len()),
        ts.len() > 0 ==> upkept_all(w, ts).last_upkeep == ts.last(),
        forall|m: nat|
            1 <= m <= ts.len() ==> #[trigger] upkept_all(w, ts).buckets[ring_step(
                w.index,
                m,
                w.buckets.len(),
            ) as int] =~= Multiset::<u64>::empty(),
    decreases ts.len(),
{
    if ts.len() > 0 {
        let pre = ts.drop_last();
        assert forall|j: int| 0 < j < pre.len() implies #[trigger] pre[j] >= pre[j - 1]
            + w.granularity by {
            assert(pre[j] == ts[j] && pre[j - 1] == ts[j - 1]);
        }
        lemma_rotation_clears(w, pre);
        let p = upkept_all(w, pre);
        let at = ts.last();
        if pre.len() > 0 {
            assert(ts[ts.len() - 1] >= ts[ts.len() - 2] + w.granularity);
            assert(pre.last() == ts[ts.len() - 2]);
        }
        assert(p.due(at));
        lemma_upkept_shape(p, at);
        let n = w.buckets.len();
        assert forall|m: nat| 1 <= m <= ts.len() implies #[trigger] upkept_all(w, ts).buckets[ring_step(
            w.index,
            m,
            n,
        ) as int] =~= Multiset::<u64>::empty() by {
            if m < ts.len() {
                assert(ring_step(w.index, m, n) != ring_step(w.index, ts.len(), n));
            }
        }
    }
}

/// A full rotation empties the window: once upkeep has run as many times as there are
/// buckets, each a full granularity interval after the one before (the first one a full
/// interval after the last rotation), with nothing recorded meanwhile, no sample is left.
pub proof fn lemma_full_rotation_empties(w: WindowModel, ts: Seq<nat>)
    requires
        w.wf(),
        ts.len() == w.buckets.len(),
        ts[0] >= w.last_upkeep + w.granularity,
        forall|j: int| 0 < j < ts.len() ==> #[trigger] ts[j] >= ts[j - 1] + w.granularity,
    ensures
        upkept_all(w, ts).contents() =~= Multiset::<u64>::empty(),
{
    lemma_rotation_clears(w, ts);
    let fin = upkept_all(w, ts);
    let n = w.buckets.len();
    assert forall|x: int| 0 <= x < fin.buckets.len() implies #[trigger] fin.buckets[x]
        =~= Multiset::<u64>::empty() by {
        let m: nat = if x > w.index {
            (x - w.index) as nat
        } else {
            (x + n - w.index) as nat
        };
        assert(ring_step(w.index, m, n) == x);
    }
    lemma_merged_empty(fin.buckets);
}

/// Upkeep is idempotent: a second upkeep at the same time, or at any time less than a
/// granularity interval after the last rotation, leaves the window as it is.
pub proof fn lemma_upkeep_idempotent(w: WindowModel, a: nat, b: nat)
    requires
        w.wf(),
        b < w.upkept(a).last_upkeep + w.granularity,
    ensures
        w.upkept(a).upkept(a) == w.upkept(a),
        w.upkept(a).upkept(b) == w.upkept(a),
{
}

/// Recording one value `n` times into an empty window gives a snapshot of exactly `n`
/// samples, all of them that value at its stored level.
pub proof fn lemma_repeated_value(w: WindowModel, v: u64, n: nat)
    requires
        w.wf(),
        w.contents() =~= Multiset::<u64>::empty(),
    ensures
        recorded_times(w, v, n).contents().count(stored_level(v)) == n,
        recorded_times(w, v, n).contents().len() == n,
        forall|x: u64| x != stored_level(v) ==> #[trigger] recorded_times(w, v, n).contents().count(x) == 0,
    decreases n,
{
    if n > 0 {
        lemma_repeated_value(w, v, (n - 1) as nat);
        let p = recorded_times(w, v, (n - 1) as nat);
        lemma_recorded_shape(w, v, (n - 1) as nat);
        lemma_merged_insert(p.buckets, p.index as int, stored_level(v));
    }
}

proof fn lemma_recorded_shape(w: WindowModel, v: u64, n: nat)
    requires
        w.wf(),
    ensures
        recorded_times(w, v, n).wf(),
        recorded_times(w, v, n).buckets.len() == w.buckets.len(),
    decreases n,
{
    if n > 0 {
        lemma_recorded_shape(w, v, (n - 1) as nat);
    }
}

/// Returns how many times the window moved on after a record at time `t`, when every
/// upkeep came at or after `t` and before `t` plus one granularity interval less than the
/// bucket count: fewer moves than buckets, so the bucket written at `t` keeps its samples.
proof fn lemma_retained_after(w0: WindowModel, v: u64, t: nat, ts: Seq<nat>) -> (k: nat)
    requires
        w0.wf(),
        w0.buckets[w0.index as int].count(v) > 0,
        forall|j: int|
            0 <= j < ts.len() ==> t <= #[trigger] ts[j] && ts[j] < t + (w0.buckets.len() - 1)
                * w0.granularity,
    ensures
        k < w0.buckets.len(),
        upkept_all(w0, ts).wf(),
        upkept_all(w0, ts).buckets.len() == w0.buckets.len(),
        upkept_all(w0, ts).granularity == w0.granularity,
        upkept_all(w0, ts).index == ring_step(w0.index, k, w0.buckets.len()),
        k > 0 ==> upkept_all(w0, ts).last_upkeep >= t + (k - 1) * w0.granularity,
        upkept_all(w0, ts).buckets[w0.index as int].count(v) > 0,
    decreases ts.len(),
{
    if ts.len() == 0 {
        0
    } else {
        let pre = ts.drop_last();
        assert forall|j: int| 0 <= j < pre.len() implies t <= #[trigger] pre[j] && pre[j] < t + (
        w0.buckets.len() - 1) * w0.granularity by {
            assert(pre[j] == ts[j]);
        }
        let k0 = lemma_retained_after(w0, v, t, pre);
        let w = upkept_all(w0, pre);
        let at = ts.last();
        assert(at == ts[ts.len() - 1]);
        lemma_upkept_shape(w, at);
        if w.due(at) {
            let n = w0.buckets.len();
            let g = w0.granularity;
            if k0 == 0 {
                assert(1 < n) by (nonlinear_arith)
                    requires
                        t <= at,
                        at < t + (n - 1) * g,
                        n >= 1,
                ;
                assert(((1 - 1) as int) * g == 0) by (nonlinear_arith);
            } else {
                assert(k0 * g == (k0 - 1) * g + g) by (nonlinear_arith);
                assert(k0 + 1 < n) by (nonlinear_arith)
                    requires
                        at >= t + (k0 - 1) * g + g,
                        at < t + (n - 1) * g,
                        k0 * g == (k0 - 1) * g + g,
                        g > 0,
                        k0 > 0,
                ;
            }
            k0 + 1
        } else {
            k0
        }
    }
}

/// A recorded value stays in the window for as many granularity intervals as the window
/// holds (`window / granularity`, the bucket count less one): after a record at time `t`,
/// whatever upkeeps then run at times from `t` up to (not including) `t` plus that many
/// intervals, the value is present, at its stored level, in the snapshot.
pub proof fn lemma_window_keeps_value(w: WindowModel, v: u64, t: nat, ts: Seq<nat>)
    requires
        w.wf(),
        forall|j: int|
            0 <= j < ts.len() ==> t <= #[trigger] ts[j] && ts[j] < t + (w.buckets.len() - 1)
                * w.granularity,
    ensures
        upkept_all(w.recorded(v), ts).contents().count(stored_level(v)) > 0,
{
    let w0 = w.recorded(v);
    let k = lemma_retained_after(w0, stored_level(v), t, ts);
    let fin = upkept_all(w0, ts);
    lemma_merged_holds_bucket(fin.buckets, w.index as int, stored_level(v));
}

/// Upkeeps on a regular schedule: at `c + (j0 + 1) * g`, `c + (j0 + 2) * g`, ... (`m` of
/// them).
pub open spec fn grid(c: nat, j0: nat, m: nat, g: nat) -> Seq<nat> {
    Seq::new(m, |i: int| (c + (j0 + 1 + i) * g) as nat)
}

proof fn lemma_upkept_all_append(w: WindowModel, a: Seq<nat>, b: Seq<nat>)
    ensures
        upkept_all(w, a + b) == upkept_all(upkept_all(w, a), b),
    decreases b.len(),
{
    if b.len() == 0 {
        assert(a + b =~= a);
    } else {
        assert((a + b).drop_last() =~= a + b.drop_last());
        lemma_upkept_all_append(w, a, b.drop_last());
    }
}

proof fn lemma_upkeep_keeps_empty(w: WindowModel, ts: Seq<nat>)
    requires
        w.wf(),
        w.contents() =~= Multiset::<u64>::empty(),
    ensures
        upkept_all(w, ts).wf(),
        upkept_all(w, ts).contents() =~= Multiset::<u64>::empty(),
    decreases ts.len(),
{
    if ts.len() > 0 {
        lemma_upkeep_keeps_empty(w, ts.drop_last());
        let p = upkept_all(w, ts.drop_last());
        lemma_upkept_shape(p, ts.last());
        assert forall|i: int| 0 <= i < p.buckets.len() implies #[trigger] p.buckets[i]
            =~= Multiset::<u64>::empty() by {
            assert forall|x: u64| p.buckets[i].count(x) == 0 by {
                lemma_merged_holds_bucket(p.buckets, i, x);
            }
        }
        let q = p.upkept(ts.last());
        assert forall|i: int| 0 <= i < q.buckets.len() implies #[trigger] q.buckets[i]
            =~= Multiset::<u64>::empty() by {}
        lemma_merged_empty(q.buckets);
    }
}

/// On a regular schedule, a value leaves the window: when upkeep runs every granularity
/// interval from the last rotation on, with nothing recorded meanwhile, then once it has run
/// at least as many times as there are buckets (so by one window and one granularity
/// interval after any record before the schedule), the window is empty.
pub proof fn lemma_regular_upkeep_evicts(w: WindowModel, c: nat, j0: nat, m: nat)
    requires
        w.wf(),
        w.last_upkeep == c + j0 * w.granularity,
        m >= w.buckets.len(),
    ensures
        upkept_all(w, grid(c, j0, m, w.granularity)).contents() =~= Multiset::<u64>::empty(),
{
    let g = w.granularity;
    let n = w.buckets.len();
    let ts = grid(c, j0, m, g);
    let first = ts.subrange(0, n as int);
    let rest = ts.subrange(n as int, m as int);
    assert(first + rest =~= ts);
    assert(first[0] == c + (j0 + 1) * g);
    assert((j0 + 1) * g == j0 * g + g) by (nonlinear_arith);
    assert forall|j: int| 0 < j < first.len() implies #[trigger] first[j] >= first[j - 1] + g by {
        assert(first[j] == c + (j0 + 1 + j) * g);
        assert(first[j - 1] == c + (j0 + 1 + (j - 1)) * g);
        assert((j0 + 1 + j) * g == (j0 + 1 + (j - 1)) * g + g) by (nonlinear_arith);
    }
    lemma_full_rotation_empties(w, first);
    lemma_rotation_clears(w, first);
    lemma_upkept_all_append(w, first, rest);
    lemma_upkeep_keeps_empty(upkept_all(w, first), rest);
}

/// A rolling-window histogram: a ring of HDR histograms, one of which receives new values,
/// rotated once per granularity interval.
pub struct WindowedHistogram {
    buckets: Vec<Distribution>,
    num_buckets: usize,
    bucket_index: usize,
    sum: u64,
    last_upkeep: u64,
    granularity: u64,
}

/// A merged view of a windowed histogram at one point in time.
#[derive(Debug, PartialEq)]
pub struct HistogramSnapshot {
    histogram: Distribution,
    sum: u64,
    count: u64,
}

impl HistogramSnapshot {
    pub closed spec fn samples(&self) -> Multiset<u64> {
        samples(self.histogram)
    }

    pub closed spec fn spec_sum(&self) -> u64 {
        self.sum
    }

    pub closed spec fn spec_count(&self) -> u64 {
        self.count
    }

    /// Wraps a merged histogram; the count is its number of samples.
    pub fn new(histogram: Distribution, sum: u64) -> (r: HistogramSnapshot)
        ensures
            r.samples() == samples(histogram),
            r.spec_sum() == sum,
            r.spec_count() == saturating_len(samples(histogram).len()),
    {
        let count = hdr_len(&histogram);
        HistogramSnapshot { histogram, sum, count }
    }

    pub fn histogram(&self) -> (r: &Distribution)
        ensures
            samples(*r) == self.samples(),
    {
        &self.histogram
    }

    pub fn sum(&self) -> (r: u64)
        ensures
            r == self.spec_sum(),
    {
        self.sum
    }

    pub fn count(&self) -> (r: u64)
        ensures
            r == self.spec_count(),
    {
        self.count
    }
}

impl WindowedHistogram {
    pub closed spec fn model(&self) -> WindowModel {
        WindowModel {
            buckets: self.buckets@.map_values(|d: Distribution| samples(d)),
            index: self.bucket_index as nat,
            last_upkeep: self.last_upkeep as nat,
            granularity: self.granularity as nat,
            sum: self.sum,
        }
    }

    pub closed spec fn wf(&self) -> bool {
        &&& self.buckets@.len() == self.num_buckets
        &&& self.num_buckets >= 1
        &&& self.bucket_index < self.num_buckets
        &&& self.granularity > 0
        &&& forall|i: int|
            0 <= i < self.buckets@.len() ==> bounds(#[trigger] self.buckets@[i]) == standard_bounds()
                && peak(self.buckets@[i]) < u64::MAX && !resizes(self.buckets@[i])
    }

    pub closed spec fn spec_sum(&self) -> u64 {
        self.sum
    }

    /// Creates an empty window of `window` nanoseconds, rotated every `granularity`
    /// nanoseconds, whose last rotation is taken to be `now`.
    pub fn new(window: u64, granularity: u64, now: u64) -> (r: WindowedHistogram)
        requires
            granularity > 0,
            window / granularity < usize::MAX,
        ensures
            r.wf(),
            r.model().wf(),
            r.model().buckets.len() == bucket_count(window as nat, granularity as nat),
            forall|i: int| 0 <= i < r.model().buckets.len() ==> #[trigger] r.model().buckets[i] =~= Multiset::<u64>::empty(),
            r.model().index == 0,
            r.model().last_upkeep == now,
            r.model().granularity == granularity,
            r.model().sum == 0,
            r.spec_sum() == 0,
    {
        let num_buckets = (window / granularity) as usize + 1;
        let mut buckets: Vec<Distribution> = Vec::with_capacity(num_buckets);
        let mut i: usize = 0;
        while i < num_buckets
            invariant
                i <= num_buckets,
                buckets@.len() == i,
                forall|j: int| 0 <= j < i ==> bounds(#[trigger] buckets@[j]) == standard_bounds()
                    && samples(buckets@[j]) =~= Multiset::<u64>::empty() && peak(buckets@[j]) == 0
                    && !resizes(buckets@[j]),
            decreases num_buckets - i,
        {
            let h = hdr_new_with_bounds(1, u64::MAX, SIGNIFICANT_DIGITS).unwrap();
            buckets.push(h);
            i = i + 1;
        }
        WindowedHistogram {
            buckets,
            num_buckets,
            bucket_index: 0,
            sum: 0,
            last_upkeep: now,
            granularity,
        }
    }

    /// Moves the window on if a granularity interval has passed since the last rotation:
    /// the next bucket becomes the writer and is cleared.
    pub fn upkeep(&mut self, at: u64)
        requires
            old(self).wf(),
        ensures
            final(self).wf(),
            final(self).model() == old(self).model().upkept(at as nat),
            final(self).spec_sum() == old(self).spec_sum(),
    {
        if at >= self.last_upkeep && at - self.last_upkeep >= self.granularity {
            let next = if self.bucket_index + 1 < self.num_buckets {
                self.bucket_index + 1
            } else {
                0
            };
            self.bucket_index = next;
            hdr_clear(&mut self.buckets[next]);
            self.last_upkeep = at;
            proof {
                assert(self.model().buckets =~= old(self).model().buckets.update(
                    next as int,
                    Multiset::empty(),
                ));
            }
        }
    }

    /// Records a value in the current bucket.
    pub fn update(&mut self, value: u64)
        requires
            old(self).wf(),
        ensures
            final(self).wf(),
            final(self).model() == old(self).model().recorded(value),
            final(self).spec_sum() == old(self).spec_sum().wrapping_add(value),
    {
        let idx = self.bucket_index;
        let level = if value == u64::MAX {
            u64::MAX - 1
        } else {
            value
        };
        hdr_saturating_record(&mut self.buckets[idx], level);
        self.sum = self.sum.wrapping_add(value);
        proof {
            assert(self.model().buckets =~= old(self).model().recorded(value).buckets);
        }
    }

    /// Merges every bucket into a fresh histogram of the same configuration.
    pub fn snapshot(&self) -> (r: HistogramSnapshot)
        requires
            self.wf(),
        ensures
            r.samples() == self.model().contents(),
            r.spec_sum() == self.spec_sum(),
            r.spec_sum() == self.model().sum,
            r.spec_count() == saturating_len(self.model().contents().len()),
    {
        let mut base = hdr_new_from(&self.buckets[self.bucket_index]);
        let mut i: usize = 0;
        let ghost bs = self.model().buckets;
        while i < self.buckets.len()
            invariant
                self.wf(),
                bs == self.model().buckets,
                i <= self.buckets@.len(),
                bounds(base) == standard_bounds(),
                peak(base) < u64::MAX,
                !resizes(base),
                samples(base) == merged(bs.subrange(0, i as int)),
            decreases self.buckets@.len() - i,
        {
            let ok = hdr_add(&mut base, &self.buckets[i]);
            proof {
                assert(ok);
                assert(bs.subrange(0, i + 1).drop_last() =~= bs.subrange(0, i as int));
            }
            i = i + 1;
        }
        proof {
            assert(bs.subrange(0, bs.len() as int) =~= bs);
        }
        HistogramSnapshot::new(base, self.sum)
    }
}

} // verus!
