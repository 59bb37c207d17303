use crate::aggregator::Aggregator;
use crate::helper::{duration_as_nanos, nanos_of};
use crate::percentile::{clamp_percentile, label_of, Percentile};

use std::time::Duration;

use vstd::prelude::*;

verus! {

/// Default depth of the sample channel.
pub const DEFAULT_CAPACITY: usize = 1024;

/// Default number of samples handled per turn of the aggregator loop.
pub const DEFAULT_BATCH_SIZE: usize = 64;

/// Default histogram window: ten seconds, in nanoseconds.
pub const DEFAULT_WINDOW: u64 = 10_000_000_000;

/// Default histogram granularity: one second, in nanoseconds.
pub const DEFAULT_GRANULARITY: u64 = 1_000_000_000;

/// The default percentiles, in fixed point: 0, 50, 95, 99, 99.9 and 100.
pub open spec fn default_percentile_values() -> Seq<nat> {
    seq![0, 50_000_000, 95_000_000, 99_000_000, 99_900_000, 100_000_000]
}

/// A configuration builder for the aggregator and its channels.
pub struct Configuration {
    /// Depth of the sample channel.
    pub capacity: usize,
    /// Largest number of samples handled per turn of the aggregator loop.
    pub batch_size: usize,
    /// Span a histogram covers, in nanoseconds.
    pub histogram_window: u64,
    /// Width of a histogram bucket, in nanoseconds.
    pub histogram_granularity: u64,
    /// Percentiles that snapshots report for histograms.
    pub percentiles: Vec<Percentile>,
}

/// A default set of percentiles that should support most use cases.
fn default_percentiles() -> (r: Vec<Percentile>)
    ensures
        r@.len() == 6,
        forall|i: int| 0 <= i < 6 ==> (#[trigger] r@[i]).spec_value() == default_percentile_values()[i]
            && r@[i].spec_label() == label_of(r@[i].spec_value()),
{
    let mut p = Vec::new();
    p.push(Percentile::from_scaled(0));
    p.push(Percentile::from_scaled(50_000_000));
    p.push(Percentile::from_scaled(95_000_000));
    p.push(Percentile::from_scaled(99_000_000));
    p.push(Percentile::from_scaled(99_900_000));
    p.push(Percentile::from_scaled(100_000_000));
    p
}

impl Default for Configuration {
    fn default() -> (r: Configuration)
        ensures
            r.capacity == DEFAULT_CAPACITY,
            r.batch_size == DEFAULT_BATCH_SIZE,
            r.histogram_window == DEFAULT_WINDOW,
            r.histogram_granularity == DEFAULT_GRANULARITY,
            r.percentiles@.len() == 6,
            forall|i: int| 0 <= i < 6 ==> (#[trigger] r.percentiles@[i]).spec_value() == default_percentile_values()[i]
                && r.percentiles@[i].spec_label() == label_of(r.percentiles@[i].spec_value()),
    {
        Configuration {
            capacity: DEFAULT_CAPACITY,
            batch_size: DEFAULT_BATCH_SIZE,
            histogram_window: DEFAULT_WINDOW,
            histogram_granularity: DEFAULT_GRANULARITY,
            percentiles: default_percentiles(),
        }
    }
}

impl Configuration {
    /// Creates a configuration with the default values.
    pub fn new() -> (r: Configuration)
        ensures
            r.capacity == DEFAULT_CAPACITY,
            r.batch_size == DEFAULT_BATCH_SIZE,
            r.histogram_window == DEFAULT_WINDOW,
            r.histogram_granularity == DEFAULT_GRANULARITY,
            r.percentiles@.len() == 6,
            forall|i: int| 0 <= i < 6 ==> (#[trigger] r.percentiles@[i]).spec_value() == default_percentile_values()[i]
                && r.percentiles@[i].spec_label() == label_of(r.percentiles@[i].spec_value()),
    {
        Configuration::default()
    }

    /// Sets the depth of the sample channel.  A full channel blocks senders until the
    /// aggregator makes room.
    pub fn capacity(self, capacity: usize) -> (r: Configuration)
        ensures
            r.capacity == capacity,
            r.batch_size == self.batch_size,
            r.histogram_window == self.histogram_window,
            r.histogram_granularity == self.histogram_granularity,
            r.percentiles == self.percentiles,
    {
        Configuration { capacity, ..self }
    }

    /// Sets the largest number of samples handled per turn of the aggregator loop.
    pub fn batch_size(self, batch_size: usize) -> (r: Configuration)
        ensures
            r.capacity == self.capacity,
            r.batch_size == batch_size,
            r.histogram_window == self.histogram_window,
            r.histogram_granularity == self.histogram_granularity,
            r.percentiles == self.percentiles,
    {
        Configuration { batch_size, ..self }
    }

    /// Sets the span of the rolling histograms and the width of their buckets.
    pub fn histogram(self, window: Duration, granularity: Duration) -> (r: Configuration)
        ensures
            r.capacity == self.capacity,
            r.batch_size == self.batch_size,
            r.histogram_window == nanos_of(window),
            r.histogram_granularity == nanos_of(granularity),
            r.percentiles == self.percentiles,
    {
        let w = duration_as_nanos(window);
        let g = duration_as_nanos(granularity);
        self.histogram_nanos(w, g)
    }

    /// Sets the span of the rolling histograms and the width of their buckets, in
    /// nanoseconds.
    pub fn histogram_nanos(self, window: u64, granularity: u64) -> (r: Configuration)
        ensures
            r.capacity == self.capacity,
            r.batch_size == self.batch_size,
            r.histogram_window == window,
            r.histogram_granularity == granularity,
            r.percentiles == self.percentiles,
    {
        Configuration { histogram_window: window, histogram_granularity: granularity, ..self }
    }

    /// Sets the percentiles that snapshots report, in fixed point (see
    /// [`Percentile::from_scaled`]); each is clamped to `[0, 100]` percent.
    pub fn percentiles(self, percentiles: &[i64]) -> (r: Configuration)
        ensures
            r.capacity == self.capacity,
            r.batch_size == self.batch_size,
            r.histogram_window == self.histogram_window,
            r.histogram_granularity == self.histogram_granularity,
            r.percentiles@.len() == percentiles@.len(),
            forall|i: int|
                0 <= i < percentiles@.len() ==> (#[trigger] r.percentiles@[i]).spec_value()
                    == clamp_percentile(percentiles@[i] as int) && r.percentiles@[i].spec_label()
                    == label_of(r.percentiles@[i].spec_value()),
    {
        let mut ps: Vec<Percentile> = Vec::new();
        let mut i: usize = 0;
        while i < percentiles.len()
            invariant
                i <= percentiles@.len(),
                ps@.len() == i,
                forall|j: int|
                    0 <= j < i ==> (#[trigger] ps@[j]).spec_value() == clamp_percentile(
                        percentiles@[j] as int,
                    ) && ps@[j].spec_label() == label_of(ps@[j].spec_value()),
            decreases percentiles@.len() - i,
        {
            ps.push(Percentile::from_scaled(percentiles[i]));
            i = i + 1;
        }
        Configuration { percentiles: ps, ..self }
    }

    /// The aggregator this configuration describes, or `None` when the granularity is zero
    /// or the window holds more buckets than memory can index.
    pub fn aggregator(&self) -> (r: Option<Aggregator>)
        ensures
            (self.histogram_granularity > 0 && self.histogram_window / self.histogram_granularity
                < usize::MAX) <==> r is Some,
            r matches Some(a) ==> a.wf() && a.model().window == self.histogram_window
                && a.model().granularity == self.histogram_granularity
                && a.model().counters.dom().is_empty() && a.model().gauges.dom().is_empty()
                && a.model().timings.dom().is_empty() && a.model().values.dom().is_empty()
                && a.model().scopes.dom().is_empty(),
    {
        if self.histogram_granularity == 0 {
            return None;
        }
        if self.histogram_window / self.histogram_granularity >= usize::MAX as u64 {
            return None;
        }
        Some(Aggregator::new(self.histogram_window, self.histogram_granularity))
    }
}

} // verus!
