use crate::aggregator::{counter_listed, metric_name, reports, step, AggregatorModel};
use crate::sample::{MessageFrame, Sample};
use crate::snapshot::TypedMeasurement;
use crate::store::{count_or_zero, counted};
use crate::table::{key_view, KeyView};
use crate::window::WindowModel;

use vstd::prelude::*;

verus! {

/// The state after applying frames in channel order; `ds[i]` is the elapsed time the clock
/// gives frame `i` if it is a timing sample.
pub open spec fn applied(
    m: AggregatorModel,
    fs: Seq<MessageFrame>,
    ds: Seq<u64>,
    now: nat,
) -> AggregatorModel
    decreases fs.len(),
{
    if fs.len() == 0 {
        m
    } else {
        step(applied(m, fs.drop_last(), ds, now), fs.last(), ds[fs.len() - 1], now)
    }
}

/// What a frame adds to the counter of `k`: the delta of a count sample, the count of a
/// timing sample.
pub open spec fn count_delta(f: MessageFrame, k: KeyView) -> int {
    match f {
        MessageFrame::Data(Sample::Count(k2, d)) => if key_view(&k2) == k {
            d as int
        } else {
            0
        },
        MessageFrame::Data(Sample::TimingHistogram(k2, _, _, n)) => if key_view(&k2) == k {
            (n as i64) as int
        } else {
            0
        },
        _ => 0,
    }
}

/// The sum of what the frames add to the counter of `k`.
pub open spec fn total_delta(fs: Seq<MessageFrame>, k: KeyView) -> int
    decreases fs.len(),
{
    if fs.len() == 0 {
        0
    } else {
        total_delta(fs.drop_last(), k) + count_delta(fs.last(), k)
    }
}

/// The value of the last gauge sample for `k`, if any.
pub open spec fn last_gauge_value(fs: Seq<MessageFrame>, k: KeyView) -> Option<u64>
    decreases fs.len(),
{
    if fs.len() == 0 {
        None
    } else {
        match fs.last() {
            MessageFrame::Data(Sample::Gauge(k2, v)) if key_view(&k2) == k => Some(v),
            _ => last_gauge_value(fs.drop_last(), k),
        }
    }
}

/// Counters add up: after a sequence of frames, the counter of `k` is its starting value
/// plus every delta sent for it, as long as no running total leaves the range of `i64`
/// (beyond it the counter wraps).
pub proof fn lemma_counter_total(
    m: AggregatorModel,
    fs: Seq<MessageFrame>,
    ds: Seq<u64>,
    now: nat,
    k: KeyView,
)
    requires
        ds.len() >= fs.len(),
        forall|j: int|
            0 <= j <= fs.len() ==> i64::MIN <= count_or_zero(m.counters, k) + #[trigger] total_delta(
                fs.subrange(0, j),
                k,
            ) <= i64::MAX,
    ensures
        count_or_zero(applied(m, fs, ds, now).counters, k) == count_or_zero(m.counters, k)
            + total_delta(fs, k),
    decreases fs.len(),
{
    if fs.len() > 0 {
        let pre = fs.drop_last();
        assert forall|j: int| 0 <= j <= pre.len() implies i64::MIN <= count_or_zero(m.counters, k)
            + #[trigger] total_delta(pre.subrange(0, j), k) <= i64::MAX by {
            assert(pre.subrange(0, j) =~= fs.subrange(0, j));
        }
        lemma_counter_total(m, pre, ds, now, k);
        assert(fs.subrange(0, fs.len() as int) =~= fs);
        let p = applied(m, pre, ds, now);
        let f = fs.last();
        match f {
            MessageFrame::Data(Sample::Count(k2, d)) => {
                if key_view(&k2) != k {
                    assert(count_or_zero(step(p, f, ds[fs.len() - 1], now).counters, k)
                        == count_or_zero(p.counters, k));
                }
            },
            MessageFrame::Data(Sample::TimingHistogram(k2, _, _, n)) => {
                if key_view(&k2) != k {
                    assert(count_or_zero(step(p, f, ds[fs.len() - 1], now).counters, k)
                        == count_or_zero(p.counters, k));
                }
            },
            _ => {},
        }
    }
}

/// Gauges keep the last write: after a sequence of frames, the gauge of `k` holds the value
/// of the last gauge sample for it, or what it held before if there was none.
pub proof fn lemma_gauge_last_write(
    m: AggregatorModel,
    fs: Seq<MessageFrame>,
    ds: Seq<u64>,
    now: nat,
    k: KeyView,
)
    requires
        ds.len() >= fs.len(),
    ensures
        last_gauge_value(fs, k) matches Some(v) ==> applied(m, fs, ds, now).gauges.contains_key(k)
            && applied(m, fs, ds, now).gauges[k] == v,
        last_gauge_value(fs, k) is None ==> (applied(m, fs, ds, now).gauges.contains_key(k)
            == m.gauges.contains_key(k) && applied(m, fs, ds, now).gauges[k] == m.gauges[k]),
    decreases fs.len(),
{
    if fs.len() > 0 {
        lemma_gauge_last_write(m, fs.drop_last(), ds, now, k);
    }
}

/// A scope registered before its samples names them: once the frame registering scope `id`
/// with prefix `p` is applied to a state that did not know `id`, every key sent under `id`
/// is named `p.key` in later snapshots, whatever frames follow.
pub proof fn lemma_scope_names_samples(
    m: AggregatorModel,
    id: u64,
    p: String,
    fs: Seq<MessageFrame>,
    ds: Seq<u64>,
    now: nat,
    key: Seq<char>,
)
    requires
        id != 0,
        p@.len() > 0,
        !m.scopes.contains_key(id),
        ds.len() >= fs.len(),
        fs.len() > 0,
        fs[0] == MessageFrame::RegisterScope(id, p),
    ensures
        metric_name(applied(m, fs, ds, now).scopes, (id, key)) == Some(p@ + seq!['.'] + key),
    decreases fs.len(),
{
    if fs.len() == 1 {
        assert(fs.drop_last() =~= Seq::<MessageFrame>::empty());
    } else {
        let pre = fs.drop_last();
        lemma_scope_names_samples(m, id, p, pre, ds, now, key);
    }
}

/// Snapshots reflect exactly the frames applied before them: when a snapshot is taken after
/// the frames `fs` were applied to empty counters, the counter of a root key that any of them
/// touched is listed under the key's own name with the sum of the deltas those frames sent
/// for it (as long as no running total leaves the range of `i64`).
pub proof fn lemma_snapshot_counts_prior_frames(
    m: AggregatorModel,
    fs: Seq<MessageFrame>,
    ds: Seq<u64>,
    now: nat,
    key: Seq<char>,
    ms: Seq<TypedMeasurement>,
)
    requires
        m.counters == Map::<KeyView, i64>::empty(),
        ds.len() >= fs.len(),
        forall|j: int|
            0 <= j <= fs.len() ==> i64::MIN <= #[trigger] total_delta(fs.subrange(0, j), (0u64, key))
                <= i64::MAX,
        applied(m, fs, ds, now).counters.contains_key((0u64, key)),
        reports(applied(m, fs, ds, now), ms),
    ensures
        counter_listed(ms, 0, ms.len() as int, key, total_delta(fs, (0u64, key)) as i64),
{
    let k: KeyView = (0u64, key);
    assert(count_or_zero(m.counters, k) == 0);
    lemma_counter_total(m, fs, ds, now, k);
    let a = applied(m, fs, ds, now);
    assert(metric_name(a.scopes, k) == Some(key));
    assert(a.counters[k] == total_delta(fs, k));
}

/// The counters after the updates `us` (key and delta), in order.
pub open spec fn counted_all(m: Map<KeyView, i64>, us: Seq<(KeyView, i64)>) -> Map<KeyView, i64>
    decreases us.len(),
{
    if us.len() == 0 {
        m
    } else {
        counted(counted_all(m, us.drop_last()), us.last().0, us.last().1)
    }
}

/// The sum of the deltas that the updates `us` send to key `k`.
pub open spec fn key_total(us: Seq<(KeyView, i64)>, k: KeyView) -> int
    decreases us.len(),
{
    if us.len() == 0 {
        0
    } else {
        key_total(us.drop_last(), k) + if us.last().0 == k {
            us.last().1 as int
        } else {
            0
        }
    }
}

/// The gauges after the writes `us` (key and value), in order.
pub open spec fn written_all(m: Map<KeyView, u64>, us: Seq<(KeyView, u64)>) -> Map<KeyView, u64>
    decreases us.len(),
{
    if us.len() == 0 {
        m
    } else {
        written_all(m, us.drop_last()).insert(us.last().0, us.last().1)
    }
}

/// The value of the last write to key `k` among `us`, if any.
pub open spec fn last_write(us: Seq<(KeyView, u64)>, k: KeyView) -> Option<u64>
    decreases us.len(),
{
    if us.len() == 0 {
        None
    } else if us.last().0 == k {
        Some(us.last().1)
    } else {
        last_write(us.drop_last(), k)
    }
}

/// A counter store adds up: after updates of any keys, in any order, the counter of `k`
/// is its starting value plus the deltas sent to `k`, as long as no running total leaves
/// the range of `i64`; a key that was updated is present.
pub proof fn lemma_counter_store_total(m: Map<KeyView, i64>, us: Seq<(KeyView, i64)>, k: KeyView)
    requires
        forall|j: int|
            0 <= j <= us.len() ==> i64::MIN <= count_or_zero(m, k) + #[trigger] key_total(
                us.subrange(0, j),
                k,
            ) <= i64::MAX,
    ensures
        count_or_zero(counted_all(m, us), k) == count_or_zero(m, k) + key_total(us, k),
        (exists|j: int| 0 <= j < us.len() && us[j].0 == k) ==> counted_all(m, us).contains_key(k),
    decreases us.len(),
{
    if us.len() > 0 {
        let pre = us.drop_last();
        assert forall|j: int| 0 <= j <= pre.len() implies i64::MIN <= count_or_zero(m, k)
            + #[trigger] key_total(pre.subrange(0, j), k) <= i64::MAX by {
            assert(pre.subrange(0, j) =~= us.subrange(0, j));
        }
        lemma_counter_store_total(m, pre, k);
        assert(us.subrange(0, us.len() as int) =~= us);
        if (exists|j: int| 0 <= j < us.len() && us[j].0 == k) && us.last().0 != k {
            let j = choose|j: int| 0 <= j < us.len() && us[j].0 == k;
            assert(pre[j] == us[j]);
        }
    }
}

/// A gauge store keeps the last write: after writes of any keys, the gauge of `k` holds the
/// value of the last write to `k`, or what it held before if there was none.
pub proof fn lemma_gauge_store_last_write(m: Map<KeyView, u64>, us: Seq<(KeyView, u64)>, k: KeyView)
    ensures
        last_write(us, k) matches Some(v) ==> written_all(m, us).contains_key(k) && written_all(
            m,
            us,
        )[k] == v,
        last_write(us, k) is None ==> written_all(m, us).contains_key(k) == m.contains_key(k)
            && written_all(m, us)[k] == m[k],
    decreases us.len(),
{
    if us.len() > 0 {
        lemma_gauge_store_last_write(m, us.drop_last(), k);
    }
}

/// A snapshot of empty stores has no measurements.
pub proof fn lemma_empty_snapshot(m: AggregatorModel, ms: Seq<TypedMeasurement>)
    requires
        m.counters == Map::<KeyView, i64>::empty(),
        m.gauges == Map::<KeyView, u64>::empty(),
        m.timings == Map::<KeyView, WindowModel>::empty(),
        m.values == Map::<KeyView, WindowModel>::empty(),
        reports(m, ms),
    ensures
        ms.len() == 0,
{
    if ms.len() > 0 {
        assert(crate::aggregator::sourced(m, ms[0]));
    }
}

} // verus!
