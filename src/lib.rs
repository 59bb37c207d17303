//! High-speed metrics aggregation.
//!
//! Producers hold a [`Sink`] and hand it samples: counts, gauges, timings and value
//! observations.  A single [`Aggregator`] folds them into counters, gauges and rolling-window
//! histograms, and answers point-in-time [`Snapshot`] requests.  Names are scoped: a sink
//! nested under another prefixes its metric names with its scope.
pub mod aggregator;
pub mod channel;
pub mod configuration;
pub mod hdr;
pub mod helper;
pub mod histogram;
pub mod laws;
pub mod mock;
pub mod percentile;
pub mod sample;
pub mod scope;
pub mod sink;
pub mod snapshot;
pub mod store;
pub mod table;
pub mod window;

pub use aggregator::Aggregator;
pub use channel::{format_recv_error, format_send_error, RecvError, SendError};
pub use configuration::Configuration;
pub use hdr::Distribution;
pub use helper::{duration_as_nanos, io_error, nanos_from_parts};
pub use histogram::Histogram;
pub use mock::Mock;
pub use percentile::Percentile;
pub use sample::{MessageFrame, Sample};
pub use scope::{join_all, join_scope, nested_scope, AsScoped, SinkError};
pub use sink::Sink;
pub use snapshot::{SimpleSnapshot, Snapshot, TypedMeasurement};
pub use store::{Counter, Gauge};
pub use table::ScopedKey;
pub use window::{HistogramSnapshot, WindowedHistogram};
