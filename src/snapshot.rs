use crate::window::HistogramSnapshot;

use vstd::multiset::Multiset;
use vstd::prelude::*;

verus! {

/// One metric in a snapshot.
#[derive(Debug, PartialEq)]
pub enum TypedMeasurement {
    Counter(String, i64),
    Gauge(String, u64),
    TimingHistogram(String, HistogramSnapshot),
    ValueHistogram(String, HistogramSnapshot),
}

/// The name and value of a counter measurement.
pub open spec fn counter_entry(m: TypedMeasurement) -> Option<(Seq<char>, i64)> {
    match m {
        TypedMeasurement::Counter(n, v) => Some((n@, v)),
        _ => None,
    }
}

/// The name and value of a gauge measurement.
pub open spec fn gauge_entry(m: TypedMeasurement) -> Option<(Seq<char>, u64)> {
    match m {
        TypedMeasurement::Gauge(n, v) => Some((n@, v)),
        _ => None,
    }
}

/// The name and samples of a timing histogram measurement.
pub open spec fn timing_entry(m: TypedMeasurement) -> Option<(Seq<char>, Multiset<u64>)> {
    match m {
        TypedMeasurement::TimingHistogram(n, h) => Some((n@, h.samples())),
        _ => None,
    }
}

/// The name and samples of a value histogram measurement.
pub open spec fn value_entry(m: TypedMeasurement) -> Option<(Seq<char>, Multiset<u64>)> {
    match m {
        TypedMeasurement::ValueHistogram(n, h) => Some((n@, h.samples())),
        _ => None,
    }
}

/// The value of the last counter named `name`, if any.
pub open spec fn last_count(ms: Seq<TypedMeasurement>, name: Seq<char>) -> Option<i64>
    decreases ms.len(),
{
    if ms.len() == 0 {
        None
    } else {
        match counter_entry(ms.last()) {
            Some((n, v)) if n == name => Some(v),
            _ => last_count(ms.drop_last(), name),
        }
    }
}

/// The value of the last gauge named `name`, if any.
pub open spec fn last_gauge(ms: Seq<TypedMeasurement>, name: Seq<char>) -> Option<u64>
    decreases ms.len(),
{
    if ms.len() == 0 {
        None
    } else {
        match gauge_entry(ms.last()) {
            Some((n, v)) if n == name => Some(v),
            _ => last_gauge(ms.drop_last(), name),
        }
    }
}

/// A point-in-time view of metric data.
pub struct Snapshot {
    measurements: Vec<TypedMeasurement>,
}

impl Default for Snapshot {
    fn default() -> (r: Snapshot)
        ensures
            r.view() == Seq::<TypedMeasurement>::empty(),
    {
        Snapshot { measurements: Vec::new() }
    }
}

impl Snapshot {
    pub closed spec fn view(&self) -> Seq<TypedMeasurement> {
        self.measurements@
    }

    /// Stores a counter value for the given metric name.
    pub fn set_count(&mut self, key: String, value: i64)
        ensures
            final(self).view() == old(self).view().push(TypedMeasurement::Counter(key, value)),
    {
        self.measurements.push(TypedMeasurement::Counter(key, value));
    }

    /// Stores a gauge value for the given metric name.
    pub fn set_gauge(&mut self, key: String, value: u64)
        ensures
            final(self).view() == old(self).view().push(TypedMeasurement::Gauge(key, value)),
    {
        self.measurements.push(TypedMeasurement::Gauge(key, value));
    }

    /// Stores a timing distribution for the given metric name.
    pub fn set_timing_histogram(&mut self, key: String, h: HistogramSnapshot)
        ensures
            final(self).view() == old(self).view().push(TypedMeasurement::TimingHistogram(key, h)),
    {
        self.measurements.push(TypedMeasurement::TimingHistogram(key, h));
    }

    /// Stores a value distribution for the given metric name.
    pub fn set_value_histogram(&mut self, key: String, h: HistogramSnapshot)
        ensures
            final(self).view() == old(self).view().push(TypedMeasurement::ValueHistogram(key, h)),
    {
        self.measurements.push(TypedMeasurement::ValueHistogram(key, h));
    }

    /// Converts this snapshot into a [`SimpleSnapshot`], which offers lookups by name.
    pub fn into_simple(self) -> (r: SimpleSnapshot)
        ensures
            r.view() == self.view(),
    {
        SimpleSnapshot { measurements: self.measurements }
    }

    /// Converts this snapshot to the underlying vector of measurements.
    pub fn into_vec(self) -> (r: Vec<TypedMeasurement>)
        ensures
            r@ == self.view(),
    {
        self.measurements
    }

    /// The number of measurements.
    pub fn len(&self) -> (r: usize)
        ensures
            r == self.view().len(),
    {
        self.measurements.len()
    }
}

/// A user-friendly metric snapshot that allows easy retrieval of values by name.  Where a
/// name occurs more than once, the last occurrence wins.
pub struct SimpleSnapshot {
    measurements: Vec<TypedMeasurement>,
}

impl SimpleSnapshot {
    pub closed spec fn view(&self) -> Seq<TypedMeasurement> {
        self.measurements@
    }

    /// Gets the counter value for the given metric name, or `None` if there is none.
    pub fn count(&self, key: &str) -> (r: Option<i64>)
        ensures
            r == last_count(self.view(), key@),
    {
        let wanted = key.to_owned();
        let mut i = self.measurements.len();
        assert(self.measurements@.subrange(0, i as int) =~= self.measurements@);
        while i > 0
            invariant
                i <= self.measurements@.len(),
                wanted@ == key@,
                last_count(self.measurements@, key@) == last_count(
                    self.measurements@.subrange(0, i as int),
                    key@,
                ),
            decreases i,
        {
            let ghost pre = self.measurements@.subrange(0, i as int);
            proof {
                assert(pre.drop_last() =~= self.measurements@.subrange(0, i - 1));
                assert(pre.last() == self.measurements@[i - 1]);
            }
            match &self.measurements[i - 1] {
                TypedMeasurement::Counter(n, v) => {
                    if *n == wanted {
                        return Some(*v);
                    }
                },
                _ => {},
            }
            i = i - 1;
        }
        None
    }

    /// Gets the gauge value for the given metric name, or `None` if there is none.
    pub fn gauge(&self, key: &str) -> (r: Option<u64>)
        ensures
            r == last_gauge(self.view(), key@),
    {
        let wanted = key.to_owned();
        let mut i = self.measurements.len();
        assert(self.measurements@.subrange(0, i as int) =~= self.measurements@);
        while i > 0
            invariant
                i <= self.measurements@.len(),
                wanted@ == key@,
                last_gauge(self.measurements@, key@) == last_gauge(
                    self.measurements@.subrange(0, i as int),
                    key@,
                ),
            decreases i,
        {
            let ghost pre = self.measurements@.subrange(0, i as int);
            proof {
                assert(pre.drop_last() =~= self.measurements@.subrange(0, i - 1));
                assert(pre.last() == self.measurements@[i - 1]);
            }
            match &self.measurements[i - 1] {
                TypedMeasurement::Gauge(n, v) => {
                    if *n == wanted {
                        return Some(*v);
                    }
                },
                _ => {},
            }
            i = i - 1;
        }
        None
    }
}

} // verus!
