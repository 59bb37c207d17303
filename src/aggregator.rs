use crate::histogram::{lists_exactly_windows, observed, Histogram};
use crate::sample::{MessageFrame, Sample};
use crate::scope::{join_scope, joined};
use crate::snapshot::{
    counter_entry, gauge_entry, timing_entry, value_entry, Snapshot, TypedMeasurement,
};
use crate::store::{counted, Counter, Gauge};
use crate::table::{key_view, lists_exactly_signed, lists_exactly_unsigned, KeyView, ScopedKey};
use crate::window::WindowModel;

use quanta::Clock;
use std::collections::HashMap;

use vstd::prelude::*;

verus! {

broadcast use vstd::std_specs::hash::group_hash_axioms;

#[verifier::external_type_specification]
#[verifier::external_body]
pub struct ExClock(Clock);

/// Relies on `quanta::Clock::new`: a clock calibrated for this machine.
#[verifier::external_body]
fn clock_new() -> (r: Clock) {
    Clock::new()
}

/// Relies on `quanta::Clock::delta_as_nanos`: the nanoseconds between two raw readings,
/// which is zero when `end` is not after `start`.
#[verifier::external_body]
fn clock_delta(clock: &Clock, start: u64, end: u64) -> (r: u64)
    ensures
        end <= start ==> r == 0,
{
    clock.delta_as_nanos(start, end)
}

/// The mathematical state of the aggregator.
pub struct AggregatorModel {
    pub counters: Map<KeyView, i64>,
    pub gauges: Map<KeyView, u64>,
    pub timings: Map<KeyView, WindowModel>,
    pub values: Map<KeyView, WindowModel>,
    pub scopes: Map<u64, Seq<char>>,
    pub window: nat,
    pub granularity: nat,
}

/// The name under which a scoped key shows up in snapshots: the key under the root scope,
/// the scope's prefix joined with the key under a registered scope, none otherwise.
pub open spec fn metric_name(scopes: Map<u64, Seq<char>>, k: KeyView) -> Option<Seq<char>> {
    if k.0 == 0 {
        Some(k.1)
    } else if scopes.contains_key(k.0) {
        Some(joined(scopes[k.0], k.1))
    } else {
        None
    }
}

/// The state after applying one frame; `delta` is the nanoseconds that the clock gives a
/// timing sample (it plays no part for other frames).
pub open spec fn step(m: AggregatorModel, f: MessageFrame, delta: u64, now: nat) -> AggregatorModel {
    match f {
        MessageFrame::Data(Sample::Count(k, d)) => AggregatorModel {
            counters: counted(m.counters, key_view(&k), d),
            ..m
        },
        MessageFrame::Data(Sample::Gauge(k, v)) => AggregatorModel {
            gauges: m.gauges.insert(key_view(&k), v),
            ..m
        },
        MessageFrame::Data(Sample::TimingHistogram(k, _start, _end, n)) => AggregatorModel {
            counters: counted(m.counters, key_view(&k), n as i64),
            timings: observed(m.timings, key_view(&k), delta, m.window, m.granularity, now),
            ..m
        },
        MessageFrame::Data(Sample::ValueHistogram(k, v)) => AggregatorModel {
            values: observed(m.values, key_view(&k), v, m.window, m.granularity, now),
            ..m
        },
        MessageFrame::RegisterScope(id, s) => if m.scopes.contains_key(id) {
            m
        } else {
            AggregatorModel { scopes: m.scopes.insert(id, s@), ..m }
        },
    }
}

/// The state after an upkeep of every histogram at time `at`.
pub open spec fn upkept_model(m: AggregatorModel, at: nat) -> AggregatorModel {
    AggregatorModel {
        timings: Map::new(|k: KeyView| m.timings.contains_key(k), |k: KeyView| m.timings[k].upkept(at)),
        values: Map::new(|k: KeyView| m.values.contains_key(k), |k: KeyView| m.values[k].upkept(at)),
        ..m
    }
}

/// A measurement that the stores account for: a counter, gauge or distribution of some key,
/// under that key's name.
pub open spec fn sourced(m: AggregatorModel, x: TypedMeasurement) -> bool {
    match x {
        TypedMeasurement::Counter(n, v) => exists|k: KeyView|
            #![trigger m.counters[k]]
            m.counters.contains_key(k) && metric_name(m.scopes, k) == Some(n@) && m.counters[k] == v,
        TypedMeasurement::Gauge(n, v) => exists|k: KeyView|
            #![trigger m.gauges[k]]
            m.gauges.contains_key(k) && metric_name(m.scopes, k) == Some(n@) && m.gauges[k] == v,
        TypedMeasurement::TimingHistogram(n, h) => exists|k: KeyView|
            #![trigger m.timings[k]]
            m.timings.contains_key(k) && metric_name(m.scopes, k) == Some(n@) && h.samples()
                == m.timings[k].contents(),
        TypedMeasurement::ValueHistogram(n, h) => exists|k: KeyView|
            #![trigger m.values[k]]
            m.values.contains_key(k) && metric_name(m.scopes, k) == Some(n@) && h.samples()
                == m.values[k].contents(),
    }
}

/// Whether `ms[lo..hi]` holds a counter of value `v` named `name`.
pub open spec fn counter_listed(ms: Seq<TypedMeasurement>, lo: int, hi: int, name: Seq<char>, v: i64) -> bool {
    exists|i: int|
        lo <= i < hi && counter_entry(#[trigger] ms[i]) == Some((name, v))
}

/// Whether `ms[lo..hi]` holds a gauge of value `v` named `name`.
pub open spec fn gauge_listed(ms: Seq<TypedMeasurement>, lo: int, hi: int, name: Seq<char>, v: u64) -> bool {
    exists|i: int|
        lo <= i < hi && gauge_entry(#[trigger] ms[i]) == Some((name, v))
}

/// Whether `ms[lo..hi]` holds a timing distribution of the given samples under the name.
pub open spec fn timing_listed(
    ms: Seq<TypedMeasurement>,
    lo: int,
    hi: int,
    name: Seq<char>,
    c: vstd::multiset::Multiset<u64>,
) -> bool {
    exists|i: int|
        lo <= i < hi && timing_entry(#[trigger] ms[i]) == Some((name, c))
}

/// Whether `ms[lo..hi]` holds a value distribution of the given samples under the name.
pub open spec fn value_listed(
    ms: Seq<TypedMeasurement>,
    lo: int,
    hi: int,
    name: Seq<char>,
    c: vstd::multiset::Multiset<u64>,
) -> bool {
    exists|i: int|
        lo <= i < hi && value_entry(#[trigger] ms[i]) == Some((name, c))
}

/// Whether the store of the given kind (0: counters, 1: gauges, 2: timing distributions,
/// 3: value distributions) holds the key `k`.
pub open spec fn in_store(m: AggregatorModel, kind: int, k: KeyView) -> bool {
    if kind == 0 {
        m.counters.contains_key(k)
    } else if kind == 1 {
        m.gauges.contains_key(k)
    } else if kind == 2 {
        m.timings.contains_key(k)
    } else {
        m.values.contains_key(k)
    }
}

/// Whether `x` reports the key `k` of the store of the given kind, under the key's name.
pub open spec fn reports_key(m: AggregatorModel, kind: int, k: KeyView, x: TypedMeasurement) -> bool {
    &&& in_store(m, kind, k)
    &&& metric_name(m.scopes, k) is Some
    &&& if kind == 0 {
        counter_entry(x) == Some((metric_name(m.scopes, k).unwrap(), m.counters[k]))
    } else if kind == 1 {
        gauge_entry(x) == Some((metric_name(m.scopes, k).unwrap(), m.gauges[k]))
    } else if kind == 2 {
        timing_entry(x) == Some((metric_name(m.scopes, k).unwrap(), m.timings[k].contents()))
    } else {
        value_entry(x) == Some((metric_name(m.scopes, k).unwrap(), m.values[k].contents()))
    }
}

/// `sec` reports, in the order of `ks`, every key of the store of the given kind whose
/// scope is known, each exactly once.
pub open spec fn section(m: AggregatorModel, kind: int, ks: Seq<KeyView>, sec: Seq<TypedMeasurement>) -> bool {
    &&& sec.len() == ks.len()
    &&& ks.no_duplicates()
    &&& forall|t: int| 0 <= t < ks.len() ==> reports_key(m, kind, #[trigger] ks[t], sec[t])
    &&& forall|k: KeyView|
        #[trigger] in_store(m, kind, k) && metric_name(m.scopes, k) is Some ==> ks.contains(k)
}

/// `ms` splits at `a`, `b` and `c` into a section of counters, one of gauges, one of timing
/// distributions and one of value distributions.
pub open spec fn split_at(m: AggregatorModel, ms: Seq<TypedMeasurement>, a: int, b: int, c: int) -> bool {
    &&& 0 <= a <= b <= c <= ms.len()
    &&& exists|ks: Seq<KeyView>| #[trigger] section(m, 0, ks, ms.subrange(0, a))
    &&& exists|ks: Seq<KeyView>| #[trigger] section(m, 1, ks, ms.subrange(a, b))
    &&& exists|ks: Seq<KeyView>| #[trigger] section(m, 2, ks, ms.subrange(b, c))
    &&& exists|ks: Seq<KeyView>| #[trigger] section(m, 3, ks, ms.subrange(c, ms.len() as int))
}

/// A snapshot laid out in order: counters, then gauges, then timing distributions, then
/// value distributions, each key of a known scope exactly once.
pub open spec fn in_sections(m: AggregatorModel, ms: Seq<TypedMeasurement>) -> bool {
    exists|a: int, b: int, c: int| #[trigger] split_at(m, ms, a, b, c)
}

/// A snapshot of the model: every measurement comes from the stores under its key's name, and
/// every key whose scope is known shows up.
pub open spec fn reports(m: AggregatorModel, ms: Seq<TypedMeasurement>) -> bool {
    &&& forall|i: int| 0 <= i < ms.len() ==> sourced(m, #[trigger] ms[i])
    &&& forall|k: KeyView| #[trigger]
        m.counters.contains_key(k) && metric_name(m.scopes, k) is Some ==> counter_listed(
            ms,
            0,
            ms.len() as int,
            metric_name(m.scopes, k).unwrap(),
            m.counters[k],
        )
    &&& forall|k: KeyView| #[trigger]
        m.gauges.contains_key(k) && metric_name(m.scopes, k) is Some ==> gauge_listed(
            ms,
            0,
            ms.len() as int,
            metric_name(m.scopes, k).unwrap(),
            m.gauges[k],
        )
    &&& forall|k: KeyView| #[trigger]
        m.timings.contains_key(k) && metric_name(m.scopes, k) is Some ==> timing_listed(
            ms,
            0,
            ms.len() as int,
            metric_name(m.scopes, k).unwrap(),
            m.timings[k].contents(),
        )
    &&& forall|k: KeyView| #[trigger]
        m.values.contains_key(k) && metric_name(m.scopes, k) is Some ==> value_listed(
            ms,
            0,
            ms.len() as int,
            metric_name(m.scopes, k).unwrap(),
            m.values[k].contents(),
        )
}

/// The aggregator: owns every store and applies frames to them one at a time.
pub struct Aggregator {
    counter: Counter,
    gauge: Gauge,
    thistogram: Histogram,
    vhistogram: Histogram,
    scopes: HashMap<u64, String>,
    clock: Clock,
}

impl Aggregator {
    pub closed spec fn model(&self) -> AggregatorModel {
        AggregatorModel {
            counters: self.counter.view(),
            gauges: self.gauge.view(),
            timings: self.thistogram.view(),
            values: self.vhistogram.view(),
            scopes: self.scopes@.map_values(|s: String| s@),
            window: self.thistogram.spec_window(),
            granularity: self.thistogram.spec_granularity(),
        }
    }

    pub closed spec fn wf(&self) -> bool {
        &&& self.thistogram.wf()
        &&& self.vhistogram.wf()
        &&& self.thistogram.spec_window() == self.vhistogram.spec_window()
        &&& self.thistogram.spec_granularity() == self.vhistogram.spec_granularity()
    }

    /// Empty stores whose histograms cover `window` nanoseconds in buckets of `granularity`
    /// nanoseconds.
    pub fn new(window: u64, granularity: u64) -> (r: Aggregator)
        requires
            granularity > 0,
            window / granularity < usize::MAX,
        ensures
            r.wf(),
            r.model().counters == Map::<KeyView, i64>::empty(),
            r.model().gauges == Map::<KeyView, u64>::empty(),
            r.model().timings == Map::<KeyView, WindowModel>::empty(),
            r.model().values == Map::<KeyView, WindowModel>::empty(),
            r.model().scopes == Map::<u64, Seq<char>>::empty(),
            r.model().window == window,
            r.model().granularity == granularity,
    {
        let r = Aggregator {
            counter: Counter::new(),
            gauge: Gauge::new(),
            thistogram: Histogram::new(window, granularity),
            vhistogram: Histogram::new(window, granularity),
            scopes: HashMap::new(),
            clock: clock_new(),
        };
        assert(r.model().scopes =~= Map::<u64, Seq<char>>::empty());
        r
    }

    /// The clock that timing samples are read with.
    pub fn clock(&self) -> &Clock {
        &self.clock
    }

    /// Applies a sample frame.  A timing sample counts into the counter of its key and records
    /// the elapsed nanoseconds between its clock readings in the timing histogram: the raw
    /// difference `end - start`, taken wrapping so that a counter that rolled over still
    /// gives a small interval, scaled by the clock.  A new histogram is taken to be last
    /// rotated at `now`.
    pub fn process_msg_frame(&mut self, msg: MessageFrame, now: u64)
        requires
            old(self).wf(),
        ensures
            final(self).wf(),
            exists|d: u64| final(self).model() == step(old(self).model(), msg, d, now as nat),
            msg matches MessageFrame::Data(Sample::TimingHistogram(_, s, e, _)) && e == s
                ==> final(self).model() == step(old(self).model(), msg, 0, now as nat),
    {
        let delta = match &msg {
            MessageFrame::Data(Sample::TimingHistogram(_, start, end, _)) => clock_delta(
                &self.clock,
                0,
                end.wrapping_sub(*start),
            ),
            _ => 0,
        };
        self.apply_frame(msg, delta, now);
    }

    /// Applies a frame, with `delta` the elapsed nanoseconds of a timing sample.
    pub fn apply_frame(&mut self, msg: MessageFrame, delta: u64, now: u64)
        requires
            old(self).wf(),
        ensures
            final(self).wf(),
            final(self).model() == step(old(self).model(), msg, delta, now as nat),
    {
        let ghost m0 = self.model();
        let ghost f = msg;
        match msg {
            MessageFrame::Data(sample) => match sample {
                Sample::Count(key, count) => {
                    self.counter.update(key, count);
                },
                Sample::Gauge(key, value) => {
                    self.gauge.update(key, value);
                },
                Sample::TimingHistogram(key, _start, _end, count) => {
                    #[verifier::truncate]
                    let n = count as i64;
                    let k2 = crate::table::clone_key(&key);
                    self.counter.update(k2, n);
                    self.thistogram.update(key, delta, now);
                },
                Sample::ValueHistogram(key, value) => {
                    self.vhistogram.update(key, value, now);
                },
            },
            MessageFrame::RegisterScope(id, scope) => {
                if !self.scopes.contains_key(&id) {
                    self.scopes.insert(id, scope);
                }
            },
        }
        proof {
            assert(self.model().scopes =~= step(m0, f, delta, now as nat).scopes);
            assert(self.model().counters =~= step(m0, f, delta, now as nat).counters);
        }
    }

    /// Upkeep of every histogram at time `at`.
    pub fn upkeep(&mut self, at: u64)
        requires
            old(self).wf(),
        ensures
            final(self).wf(),
            final(self).model() == upkept_model(old(self).model(), at as nat),
    {
        self.thistogram.upkeep(at);
        self.vhistogram.upkeep(at);
        proof {
            assert(self.model().timings =~= upkept_model(old(self).model(), at as nat).timings);
            assert(self.model().values =~= upkept_model(old(self).model(), at as nat).values);
        }
    }

    /// A snapshot of every store: counters, then gauges, then timing and value
    /// distributions, each under its key's name; keys of unknown scopes are left out.
    pub fn get_snapshot(&self) -> (r: Snapshot)
        requires
            self.wf(),
        ensures
            reports(self.model(), r.view()),
            in_sections(self.model(), r.view()),
    {
        let mut snap = Snapshot::default();
        let ghost s0 = snap.view();
        let ks1 = self.report_counters(&mut snap);
        let ghost s1 = snap.view();
        let ks2 = self.report_gauges(&mut snap);
        let ghost s2 = snap.view();
        let ks3 = self.report_timings(&mut snap);
        let ghost s3 = snap.view();
        let ks4 = self.report_values(&mut snap);
        let ghost s4 = snap.view();
        proof {
            let m = self.model();
            let a = s1.len() as int;
            let b = s2.len() as int;
            let c = s3.len() as int;
            assert(s4.subrange(0, a) =~= s1.subrange(s0.len() as int, a));
            assert(s4.subrange(a, b) =~= s2.subrange(a, b));
            assert(s4.subrange(b, c) =~= s3.subrange(b, c));
            assert(section(m, 0, ks1@, s4.subrange(0, a)));
            assert(section(m, 1, ks2@, s4.subrange(a, b)));
            assert(section(m, 2, ks3@, s4.subrange(b, c)));
            assert(section(m, 3, ks4@, s4.subrange(c, s4.len() as int)));
            assert(split_at(m, s4, a, b, c));
            assert forall|i: int| 0 <= i < s1.len() implies s4[i] == s1[i] by {
                assert(s2[i] == s1[i]);
                assert(s3[i] == s2[i]);
            }
            assert forall|i: int| 0 <= i < s2.len() implies s4[i] == s2[i] by {
                assert(s3[i] == s2[i]);
            }
            assert forall|i: int| 0 <= i < s4.len() implies sourced(m, #[trigger] s4[i]) by {
                if i < s1.len() {
                    assert(s4[i] == s1[i]);
                } else if i < s2.len() {
                    assert(s4[i] == s2[i]);
                } else if i < s3.len() {
                    assert(s4[i] == s3[i]);
                }
            }
            assert forall|k: KeyView| #[trigger]
                m.counters.contains_key(k) && metric_name(m.scopes, k) is Some implies counter_listed(
                s4,
                0,
                s4.len() as int,
                metric_name(m.scopes, k).unwrap(),
                m.counters[k],
            ) by {
                let nm = metric_name(m.scopes, k).unwrap();
                let w = choose|w: int|
                    0 <= w < s1.len() && counter_entry(#[trigger] s1[w]) == Some((nm, m.counters[k]));
                assert(s4[w] == s1[w]);
            }
            assert forall|k: KeyView| #[trigger]
                m.gauges.contains_key(k) && metric_name(m.scopes, k) is Some implies gauge_listed(
                s4,
                0,
                s4.len() as int,
                metric_name(m.scopes, k).unwrap(),
                m.gauges[k],
            ) by {
                let nm = metric_name(m.scopes, k).unwrap();
                let w = choose|w: int|
                    0 <= w < s2.len() && gauge_entry(#[trigger] s2[w]) == Some((nm, m.gauges[k]));
                assert(s4[w] == s2[w]);
            }
            assert forall|k: KeyView| #[trigger]
                m.timings.contains_key(k) && metric_name(m.scopes, k) is Some implies timing_listed(
                s4,
                0,
                s4.len() as int,
                metric_name(m.scopes, k).unwrap(),
                m.timings[k].contents(),
            ) by {
                let nm = metric_name(m.scopes, k).unwrap();
                let w = choose|w: int|
                    0 <= w < s3.len() && timing_entry(#[trigger] s3[w]) == Some(
                        (nm, m.timings[k].contents()),
                    );
                assert(s4[w] == s3[w]);
            }
        }
        snap
    }

    /// Appends every counter whose scope is known, under its name.
    fn report_counters(&self, snap: &mut Snapshot) -> (ks: Ghost<Seq<KeyView>>)
        requires
            self.wf(),
        ensures
            final(snap).view().len() >= old(snap).view().len(),
            forall|i: int|
                0 <= i < old(snap).view().len() ==> final(snap).view()[i] == old(snap).view()[i],
            forall|i: int|
                old(snap).view().len() <= i < final(snap).view().len() ==> sourced(
                    self.model(),
                    #[trigger] final(snap).view()[i],
                ),
            forall|k: KeyView| #[trigger]
                self.model().counters.contains_key(k) && metric_name(self.model().scopes, k) is Some
                    ==> counter_listed(
                    final(snap).view(),
                    0,
                    final(snap).view().len() as int,
                    metric_name(self.model().scopes, k).unwrap(),
                    self.model().counters[k],
                ),
            section(
                self.model(),
                0,
                ks@,
                final(snap).view().subrange(old(snap).view().len() as int, final(snap).view().len() as int),
            ),
    {
        let values = self.counter.values();
        let ghost m = self.model();
        let ghost lo = snap.view().len();
        let ghost mut ks: Seq<KeyView> = Seq::empty();
        let ghost mut js: Seq<int> = Seq::empty();
        let mut i: usize = 0;
        while i < values.len()
            invariant
                m == self.model(),
                lists_exactly_signed(values@, m.counters),
                0 <= i <= values@.len(),
                snap.view().len() >= lo,
                lo == old(snap).view().len(),
                forall|j: int| 0 <= j < lo ==> snap.view()[j] == old(snap).view()[j],
                forall|j: int| lo <= j < snap.view().len() ==> sourced(m, #[trigger] snap.view()[j]),
                forall|j: int|
                    0 <= j < i && metric_name(m.scopes, key_view(&values@[j].0)) is Some
                        ==> counter_listed(
                        snap.view(),
                        0,
                        snap.view().len() as int,
                        metric_name(m.scopes, key_view(&values@[j].0)).unwrap(),
                        (#[trigger] values@[j].1),
                    ),
                ks.len() == snap.view().len() - lo,
                js.len() == ks.len(),
                ks.no_duplicates(),
                forall|t: int|
                    0 <= t < ks.len() ==> reports_key(m, 0, #[trigger] ks[t], snap.view()[lo + t]),
                forall|t: int|
                    0 <= t < js.len() ==> 0 <= #[trigger] js[t] < i && ks[t] == key_view(
                        &values@[js[t]].0,
                    ),
                forall|j: int|
                    0 <= j < i && metric_name(m.scopes, key_view(&values@[j].0)) is Some
                        ==> ks.contains(key_view(&(#[trigger] values@[j]).0)),
            decreases values@.len() - i,
        {
            let ghost before = snap.view();
            let ghost ks0 = ks;
            if let Some(name) = self.get_string_scope(&values[i].0) {
                let ghost kv = key_view(&values@[i as int].0);
                proof {
                    assert(m.counters.contains_key(kv) && m.counters[kv] == values@[i as int].1);
                }
                snap.set_count(name, values[i].1);
                proof {
                    let after = snap.view();
                    assert(counter_entry(after[before.len() as int]) == Some((name@, values@[i as int].1)));
                    assert forall|j: int|
                        0 <= j <= i && metric_name(m.scopes, key_view(&values@[j].0)) is Some
                            implies counter_listed(
                            after,
                            0,
                            after.len() as int,
                            metric_name(m.scopes, key_view(&values@[j].0)).unwrap(),
                            (#[trigger] values@[j].1),
                        ) by {
                        if j < i {
                            let nm = metric_name(m.scopes, key_view(&values@[j].0)).unwrap();
                            let w = choose|w: int|
                                0 <= w < before.len() && counter_entry(#[trigger] before[w]) == Some(
                                    (nm, values@[j].1),
                                );
                            assert(after[w] == before[w]);
                        }
                    }
                    assert forall|t: int| 0 <= t < ks0.len() implies ks0[t] != kv by {
                        assert(js[t] != i);
                    }
                    ks = ks0.push(kv);
                    js = js.push(i as int);
                    assert forall|t: int| 0 <= t < ks.len() implies reports_key(
                        m,
                        0,
                        #[trigger] ks[t],
                        after[lo + t],
                    ) by {
                        if t < ks0.len() {
                            assert(after[lo + t] == before[lo + t]);
                        }
                    }
                    assert forall|j: int|
                        0 <= j <= i && metric_name(m.scopes, key_view(&values@[j].0)) is Some
                            implies ks.contains(key_view(&(#[trigger] values@[j]).0)) by {
                        if j < i {
                            let t = choose|t: int| 0 <= t < ks0.len() && ks0[t] == key_view(&values@[j].0);
                            assert(ks[t] == ks0[t]);
                        } else {
                            assert(ks[ks.len() - 1] == kv);
                        }
                    }
                }
            }
            i = i + 1;
        }
        proof {
            assert forall|k: KeyView| #[trigger]
                m.counters.contains_key(k) && metric_name(m.scopes, k) is Some implies counter_listed(
                snap.view(),
                0,
                snap.view().len() as int,
                metric_name(m.scopes, k).unwrap(),
                m.counters[k],
            ) by {
                let j = choose|j: int| 0 <= j < values@.len() && key_view(&values@[j].0) == k;
                assert(m.counters[key_view(&values@[j].0)] == values@[j].1);
            }
            let sec = snap.view().subrange(lo as int, snap.view().len() as int);
            assert forall|t: int| 0 <= t < ks.len() implies reports_key(m, 0, #[trigger] ks[t], sec[t]) by {
                assert(sec[t] == snap.view()[lo + t]);
            }
            assert forall|k: KeyView| #[trigger] in_store(m, 0, k) && metric_name(m.scopes, k) is Some implies ks.contains(k) by {
                let j = choose|j: int| 0 <= j < values@.len() && key_view(&values@[j].0) == k;
                assert(ks.contains(key_view(&values@[j].0)));
            }
        }
        Ghost(ks)
    }

    /// Appends every gauge whose scope is known, under its name.
    fn report_gauges(&self, snap: &mut Snapshot) -> (ks: Ghost<Seq<KeyView>>)
        requires
            self.wf(),
        ensures
            final(snap).view().len() >= old(snap).view().len(),
            forall|i: int|
                0 <= i < old(snap).view().len() ==> final(snap).view()[i] == old(snap).view()[i],
            forall|i: int|
                old(snap).view().len() <= i < final(snap).view().len() ==> sourced(
                    self.model(),
                    #[trigger] final(snap).view()[i],
                ),
            forall|k: KeyView| #[trigger]
                self.model().gauges.contains_key(k) && metric_name(self.model().scopes, k) is Some
                    ==> gauge_listed(
                    final(snap).view(),
                    0,
                    final(snap).view().len() as int,
                    metric_name(self.model().scopes, k).unwrap(),
                    self.model().gauges[k],
                ),
            section(
                self.model(),
                1,
                ks@,
                final(snap).view().subrange(old(snap).view().len() as int, final(snap).view().len() as int),
            ),
    {
        let values = self.gauge.values();
        let ghost m = self.model();
        let ghost lo = snap.view().len();
        let ghost mut ks: Seq<KeyView> = Seq::empty();
        let ghost mut js: Seq<int> = Seq::empty();
        let mut i: usize = 0;
        while i < values.len()
            invariant
                m == self.model(),
                lists_exactly_unsigned(values@, m.gauges),
                0 <= i <= values@.len(),
                snap.view().len() >= lo,
                lo == old(snap).view().len(),
                forall|j: int| 0 <= j < lo ==> snap.view()[j] == old(snap).view()[j],
                forall|j: int| lo <= j < snap.view().len() ==> sourced(m, #[trigger] snap.view()[j]),
                forall|j: int|
                    0 <= j < i && metric_name(m.scopes, key_view(&values@[j].0)) is Some
                        ==> gauge_listed(
                        snap.view(),
                        0,
                        snap.view().len() as int,
                        metric_name(m.scopes, key_view(&values@[j].0)).unwrap(),
                        (#[trigger] values@[j].1),
                    ),
                ks.len() == snap.view().len() - lo,
                js.len() == ks.len(),
                ks.no_duplicates(),
                forall|t: int|
                    0 <= t < ks.len() ==> reports_key(m, 1, #[trigger] ks[t], snap.view()[lo + t]),
                forall|t: int|
                    0 <= t < js.len() ==> 0 <= #[trigger] js[t] < i && ks[t] == key_view(
                        &values@[js[t]].0,
                    ),
                forall|j: int|
                    0 <= j < i && metric_name(m.scopes, key_view(&values@[j].0)) is Some
                        ==> ks.contains(key_view(&(#[trigger] values@[j]).0)),
            decreases values@.len() - i,
        {
            let ghost before = snap.view();
            let ghost ks0 = ks;
            if let Some(name) = self.get_string_scope(&values[i].0) {
                let ghost kv = key_view(&values@[i as int].0);
                proof {
                    assert(m.gauges.contains_key(kv) && m.gauges[kv] == values@[i as int].1);
                }
                snap.set_gauge(name, values[i].1);
                proof {
                    let after = snap.view();
                    assert(gauge_entry(after[before.len() as int]) == Some((name@, values@[i as int].1)));
                    assert forall|j: int|
                        0 <= j <= i && metric_name(m.scopes, key_view(&values@[j].0)) is Some
                            implies gauge_listed(
                            after,
                            0,
                            after.len() as int,
                            metric_name(m.scopes, key_view(&values@[j].0)).unwrap(),
                            (#[trigger] values@[j].1),
                        ) by {
                        if j < i {
                            let nm = metric_name(m.scopes, key_view(&values@[j].0)).unwrap();
                            let w = choose|w: int|
                                0 <= w < before.len() && gauge_entry(#[trigger] before[w]) == Some(
                                    (nm, values@[j].1),
                                );
                            assert(after[w] == before[w]);
                        }
                    }
                    assert forall|t: int| 0 <= t < ks0.len() implies ks0[t] != kv by {
                        assert(js[t] != i);
                    }
                    ks = ks0.push(kv);
                    js = js.push(i as int);
                    assert forall|t: int| 0 <= t < ks.len() implies reports_key(
                        m,
                        1,
                        #[trigger] ks[t],
                        after[lo + t],
                    ) by {
                        if t < ks0.len() {
                            assert(after[lo + t] == before[lo + t]);
                        }
                    }
                    assert forall|j: int|
                        0 <= j <= i && metric_name(m.scopes, key_view(&values@[j].0)) is Some
                            implies ks.contains(key_view(&(#[trigger] values@[j]).0)) by {
                        if j < i {
                            let t = choose|t: int| 0 <= t < ks0.len() && ks0[t] == key_view(&values@[j].0);
                            assert(ks[t] == ks0[t]);
                        } else {
                            assert(ks[ks.len() - 1] == kv);
                        }
                    }
                }
            }
            i = i + 1;
        }
        proof {
            assert forall|k: KeyView| #[trigger]
                m.gauges.contains_key(k) && metric_name(m.scopes, k) is Some implies gauge_listed(
                snap.view(),
                0,
                snap.view().len() as int,
                metric_name(m.scopes, k).unwrap(),
                m.gauges[k],
            ) by {
                let j = choose|j: int| 0 <= j < values@.len() && key_view(&values@[j].0) == k;
                assert(m.gauges[key_view(&values@[j].0)] == values@[j].1);
            }
            let sec = snap.view().subrange(lo as int, snap.view().len() as int);
            assert forall|t: int| 0 <= t < ks.len() implies reports_key(m, 1, #[trigger] ks[t], sec[t]) by {
                assert(sec[t] == snap.view()[lo + t]);
            }
            assert forall|k: KeyView| #[trigger] in_store(m, 1, k) && metric_name(m.scopes, k) is Some implies ks.contains(k) by {
                let j = choose|j: int| 0 <= j < values@.len() && key_view(&values@[j].0) == k;
                assert(ks.contains(key_view(&values@[j].0)));
            }
        }
        Ghost(ks)
    }

    /// Appends every timing distribution whose scope is known, under its name.
    fn report_timings(&self, snap: &mut Snapshot) -> (ks: Ghost<Seq<KeyView>>)
        requires
            self.wf(),
        ensures
            final(snap).view().len() >= old(snap).view().len(),
            forall|i: int|
                0 <= i < old(snap).view().len() ==> final(snap).view()[i] == old(snap).view()[i],
            forall|i: int|
                old(snap).view().len() <= i < final(snap).view().len() ==> sourced(
                    self.model(),
                    #[trigger] final(snap).view()[i],
                ),
            forall|k: KeyView| #[trigger]
                self.model().timings.contains_key(k) && metric_name(self.model().scopes, k) is Some
                    ==> timing_listed(
                    final(snap).view(),
                    0,
                    final(snap).view().len() as int,
                    metric_name(self.model().scopes, k).unwrap(),
                    self.model().timings[k].contents(),
                ),
            section(
                self.model(),
                2,
                ks@,
                final(snap).view().subrange(old(snap).view().len() as int, final(snap).view().len() as int),
            ),
    {
        let mut values = self.thistogram.values();
        let ghost all = values@;
        let ghost m = self.model();
        let ghost lo = snap.view().len();
        let ghost mut ks: Seq<KeyView> = Seq::empty();
        let ghost mut js: Seq<int> = Seq::empty();
        while values.len() > 0
            invariant
                m == self.model(),
                lists_exactly_windows(all, m.timings),
                values@ == all.subrange(0, values@.len() as int),
                values@.len() <= all.len(),
                snap.view().len() >= lo,
                lo == old(snap).view().len(),
                forall|j: int| 0 <= j < lo ==> snap.view()[j] == old(snap).view()[j],
                forall|j: int| lo <= j < snap.view().len() ==> sourced(m, #[trigger] snap.view()[j]),
                forall|j: int|
                    values@.len() <= j < all.len() && metric_name(m.scopes, key_view(&all[j].0)) is Some
                        ==> timing_listed(
                        snap.view(),
                        0,
                        snap.view().len() as int,
                        metric_name(m.scopes, key_view(&all[j].0)).unwrap(),
                        (#[trigger] all[j].1).samples(),
                    ),
                ks.len() == snap.view().len() - lo,
                js.len() == ks.len(),
                ks.no_duplicates(),
                forall|t: int|
                    0 <= t < ks.len() ==> reports_key(m, 2, #[trigger] ks[t], snap.view()[lo + t]),
                forall|t: int|
                    0 <= t < js.len() ==> values@.len() <= #[trigger] js[t] < all.len() && ks[t]
                        == key_view(&all[js[t]].0),
                forall|j: int|
                    values@.len() <= j < all.len() && metric_name(m.scopes, key_view(&all[j].0)) is Some
                        ==> ks.contains(key_view(&(#[trigger] all[j]).0)),
            decreases values@.len(),
        {
            let ghost before = snap.view();
            let ghost ks0 = ks;
            let ghost idx = values@.len() - 1;
            let (key, h) = values.pop().unwrap();
            proof {
                assert(all[idx] == (key, h));
                assert(values@ =~= all.subrange(0, values@.len() as int));
            }
            if let Some(name) = self.get_string_scope(&key) {
                let ghost kv = key_view(&key);
                proof {
                    assert(m.timings.contains_key(kv) && m.timings[kv].contents() == h.samples());
                }
                snap.set_timing_histogram(name, h);
                proof {
                    let after = snap.view();
                    assert(timing_entry(after[before.len() as int]) == Some((name@, all[idx].1.samples())));
                    assert forall|j: int|
                        idx <= j < all.len() && metric_name(m.scopes, key_view(&all[j].0)) is Some
                            implies timing_listed(
                            after,
                            0,
                            after.len() as int,
                            metric_name(m.scopes, key_view(&all[j].0)).unwrap(),
                            (#[trigger] all[j].1).samples(),
                        ) by {
                        if j > idx {
                            let nm = metric_name(m.scopes, key_view(&all[j].0)).unwrap();
                            let w = choose|w: int|
                                0 <= w < before.len() && timing_entry(#[trigger] before[w]) == Some(
                                    (nm, all[j].1.samples()),
                                );
                            assert(after[w] == before[w]);
                        }
                    }
                    assert forall|t: int| 0 <= t < ks0.len() implies ks0[t] != kv by {
                        assert(js[t] != idx);
                    }
                    ks = ks0.push(kv);
                    js = js.push(idx);
                    assert forall|t: int| 0 <= t < ks.len() implies reports_key(
                        m,
                        2,
                        #[trigger] ks[t],
                        after[lo + t],
                    ) by {
                        if t < ks0.len() {
                            assert(after[lo + t] == before[lo + t]);
                        }
                    }
                    assert forall|j: int|
                        idx <= j < all.len() && metric_name(m.scopes, key_view(&all[j].0)) is Some
                            implies ks.contains(key_view(&(#[trigger] all[j]).0)) by {
                        if j > idx {
                            let t = choose|t: int| 0 <= t < ks0.len() && ks0[t] == key_view(&all[j].0);
                            assert(ks[t] == ks0[t]);
                        } else {
                            assert(ks[ks.len() - 1] == kv);
                        }
                    }
                }
            }
        }
        proof {
            assert forall|k: KeyView| #[trigger]
                m.timings.contains_key(k) && metric_name(m.scopes, k) is Some implies timing_listed(
                snap.view(),
                0,
                snap.view().len() as int,
                metric_name(m.scopes, k).unwrap(),
                m.timings[k].contents(),
            ) by {
                let j = choose|j: int| 0 <= j < all.len() && key_view(&all[j].0) == k;
                assert(m.timings[key_view(&all[j].0)].contents() == all[j].1.samples());
            }
            let sec = snap.view().subrange(lo as int, snap.view().len() as int);
            assert forall|t: int| 0 <= t < ks.len() implies reports_key(m, 2, #[trigger] ks[t], sec[t]) by {
                assert(sec[t] == snap.view()[lo + t]);
            }
            assert forall|k: KeyView| #[trigger] in_store(m, 2, k) && metric_name(m.scopes, k) is Some implies ks.contains(k) by {
                let j = choose|j: int| 0 <= j < all.len() && key_view(&all[j].0) == k;
                assert(ks.contains(key_view(&all[j].0)));
            }
        }
        Ghost(ks)
    }

    /// Appends every value distribution whose scope is known, under its name.
    fn report_values(&self, snap: &mut Snapshot) -> (ks: Ghost<Seq<KeyView>>)
        requires
            self.wf(),
        ensures
            final(snap).view().len() >= old(snap).view().len(),
            forall|i: int|
                0 <= i < old(snap).view().len() ==> final(snap).view()[i] == old(snap).view()[i],
            forall|i: int|
                old(snap).view().len() <= i < final(snap).view().len() ==> sourced(
                    self.model(),
                    #[trigger] final(snap).view()[i],
                ),
            forall|k: KeyView| #[trigger]
                self.model().values.contains_key(k) && metric_name(self.model().scopes, k) is Some
                    ==> value_listed(
                    final(snap).view(),
                    0,
                    final(snap).view().len() as int,
                    metric_name(self.model().scopes, k).unwrap(),
                    self.model().values[k].contents(),
                ),
            section(
                self.model(),
                3,
                ks@,
                final(snap).view().subrange(old(snap).view().len() as int, final(snap).view().len() as int),
            ),
    {
        let mut values = self.vhistogram.values();
        let ghost all = values@;
        let ghost m = self.model();
        let ghost lo = snap.view().len();
        let ghost mut ks: Seq<KeyView> = Seq::empty();
        let ghost mut js: Seq<int> = Seq::empty();
        while values.len() > 0
            invariant
                m == self.model(),
                lists_exactly_windows(all, m.values),
                values@ == all.subrange(0, values@.len() as int),
                values@.len() <= all.len(),
                snap.view().len() >= lo,
                lo == old(snap).view().len(),
                forall|j: int| 0 <= j < lo ==> snap.view()[j] == old(snap).view()[j],
                forall|j: int| lo <= j < snap.view().len() ==> sourced(m, #[trigger] snap.view()[j]),
                forall|j: int|
                    values@.len() <= j < all.len() && metric_name(m.scopes, key_view(&all[j].0)) is Some
                        ==> value_listed(
                        snap.view(),
                        0,
                        snap.view().len() as int,
                        metric_name(m.scopes, key_view(&all[j].0)).unwrap(),
                        (#[trigger] all[j].1).samples(),
                    ),
                ks.len() == snap.view().len() - lo,
                js.len() == ks.len(),
                ks.no_duplicates(),
                forall|t: int|
                    0 <= t < ks.len() ==> reports_key(m, 3, #[trigger] ks[t], snap.view()[lo + t]),
                forall|t: int|
                    0 <= t < js.len() ==> values@.len() <= #[trigger] js[t] < all.len() && ks[t]
                        == key_view(&all[js[t]].0),
                forall|j: int|
                    values@.len() <= j < all.len() && metric_name(m.scopes, key_view(&all[j].0)) is Some
                        ==> ks.contains(key_view(&(#[trigger] all[j]).0)),
            decreases values@.len(),
        {
            let ghost before = snap.view();
            let ghost ks0 = ks;
            let ghost idx = values@.len() - 1;
            let (key, h) = values.pop().unwrap();
            proof {
                assert(all[idx] == (key, h));
                assert(values@ =~= all.subrange(0, values@.len() as int));
            }
            if let Some(name) = self.get_string_scope(&key) {
                let ghost kv = key_view(&key);
                proof {
                    assert(m.values.contains_key(kv) && m.values[kv].contents() == h.samples());
                }
                snap.set_value_histogram(name, h);
                proof {
                    let after = snap.view();
                    assert(value_entry(after[before.len() as int]) == Some((name@, all[idx].1.samples())));
                    assert forall|j: int|
                        idx <= j < all.len() && metric_name(m.scopes, key_view(&all[j].0)) is Some
                            implies value_listed(
                            after,
                            0,
                            after.len() as int,
                            metric_name(m.scopes, key_view(&all[j].0)).unwrap(),
                            (#[trigger] all[j].1).samples(),
                        ) by {
                        if j > idx {
                            let nm = metric_name(m.scopes, key_view(&all[j].0)).unwrap();
                            let w = choose|w: int|
                                0 <= w < before.len() && value_entry(#[trigger] before[w]) == Some(
                                    (nm, all[j].1.samples()),
                                );
                            assert(after[w] == before[w]);
                        }
                    }
                    assert forall|t: int| 0 <= t < ks0.len() implies ks0[t] != kv by {
                        assert(js[t] != idx);
                    }
                    ks = ks0.push(kv);
                    js = js.push(idx);
                    assert forall|t: int| 0 <= t < ks.len() implies reports_key(
                        m,
                        3,
                        #[trigger] ks[t],
                        after[lo + t],
                    ) by {
                        if t < ks0.len() {
                            assert(after[lo + t] == before[lo + t]);
                        }
                    }
                    assert forall|j: int|
                        idx <= j < all.len() && metric_name(m.scopes, key_view(&all[j].0)) is Some
                            implies ks.contains(key_view(&(#[trigger] all[j]).0)) by {
                        if j > idx {
                            let t = choose|t: int| 0 <= t < ks0.len() && ks0[t] == key_view(&all[j].0);
                            assert(ks[t] == ks0[t]);
                        } else {
                            assert(ks[ks.len() - 1] == kv);
                        }
                    }
                }
            }
        }
        proof {
            assert forall|k: KeyView| #[trigger]
                m.values.contains_key(k) && metric_name(m.scopes, k) is Some implies value_listed(
                snap.view(),
                0,
                snap.view().len() as int,
                metric_name(m.scopes, k).unwrap(),
                m.values[k].contents(),
            ) by {
                let j = choose|j: int| 0 <= j < all.len() && key_view(&all[j].0) == k;
                assert(m.values[key_view(&all[j].0)].contents() == all[j].1.samples());
            }
            let sec = snap.view().subrange(lo as int, snap.view().len() as int);
            assert forall|t: int| 0 <= t < ks.len() implies reports_key(m, 3, #[trigger] ks[t], sec[t]) by {
                assert(sec[t] == snap.view()[lo + t]);
            }
            assert forall|k: KeyView| #[trigger] in_store(m, 3, k) && metric_name(m.scopes, k) is Some implies ks.contains(k) by {
                let j = choose|j: int| 0 <= j < all.len() && key_view(&all[j].0) == k;
                assert(ks.contains(key_view(&all[j].0)));
            }
        }
        Ghost(ks)
    }

    /// One turn of the upkeep schedule: when `now` has reached `deadline`, upkeep of every
    /// histogram at `now`, and the next deadline is `interval` later (saturating); otherwise
    /// nothing changes and the deadline stays.
    pub fn upkeep_if_due(&mut self, now: u64, deadline: u64, interval: u64) -> (r: u64)
        requires
            old(self).wf(),
        ensures
            final(self).wf(),
            now >= deadline ==> final(self).model() == upkept_model(old(self).model(), now as nat)
                && r == if now as int + interval as int > u64::MAX {
                    u64::MAX
                } else {
                    (now + interval) as u64
                },
            now < deadline ==> final(self).model() == old(self).model() && r == deadline,
    {
        if now >= deadline {
            self.upkeep(now);
            now.saturating_add(interval)
        } else {
            deadline
        }
    }

    /// The name of a scoped key: `None` when its scope was never registered.
    fn get_string_scope(&self, key: &ScopedKey) -> (r: Option<String>)
        ensures
            r is Some <==> metric_name(self.model().scopes, key_view(key)) is Some,
            r matches Some(s) ==> metric_name(self.model().scopes, key_view(key)) == Some(s@),
    {
        if key.0 == 0 {
            Some(key.1.clone())
        } else {
            match self.scopes.get(&key.0) {
                Some(prefix) => Some(join_scope(prefix.as_str(), key.1.as_str())),
                None => None,
            }
        }
    }
}

} // verus!
