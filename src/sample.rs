use crate::table::ScopedKey;

use vstd::prelude::*;

verus! {

/// A measurement.
///
/// Samples are the decoupled way of submitting data to the aggregator.
pub enum Sample<T> {
    /// A counter delta: added to the counter, so negative deltas decrease it.
    Count(T, i64),
    /// A gauge value: the last one written wins.
    Gauge(T, u64),
    /// A timed event: raw start and end clock readings, and a count of what the event
    /// processed (rows, bytes, ...).
    TimingHistogram(T, u64, u64, u64),
    /// A value observed over time, fed to a distribution.
    ValueHistogram(T, u64),
}

/// The same sample with its key qualified by a scope id.
pub open spec fn scoped_sample<T>(s: Sample<T>, scope_id: u64) -> Sample<(u64, T)> {
    match s {
        Sample::Count(k, d) => Sample::Count((scope_id, k), d),
        Sample::Gauge(k, v) => Sample::Gauge((scope_id, k), v),
        Sample::TimingHistogram(k, a, b, n) => Sample::TimingHistogram((scope_id, k), a, b, n),
        Sample::ValueHistogram(k, v) => Sample::ValueHistogram((scope_id, k), v),
    }
}

impl<T> Sample<T> {
    /// Qualifies the sample's key with the id of the scope it is sent under.
    pub fn into_scoped(self, scope_id: u64) -> (r: Sample<(u64, T)>)
        ensures
            r == scoped_sample(self, scope_id),
    {
        match self {
            Sample::Count(key, value) => Sample::Count((scope_id, key), value),
            Sample::Gauge(key, value) => Sample::Gauge((scope_id, key), value),
            Sample::TimingHistogram(key, start, end, count) => Sample::TimingHistogram(
                (scope_id, key),
                start,
                end,
                count,
            ),
            Sample::ValueHistogram(key, value) => Sample::ValueHistogram((scope_id, key), value),
        }
    }
}

/// What travels on the data channel from sinks to the aggregator.
pub enum MessageFrame {
    /// A metric sample with its scoped key.
    Data(Sample<ScopedKey>),
    /// Registers the prefix of a scope id; sent by a scoped sink before any of its samples.
    RegisterScope(u64, String),
}

} // verus!
