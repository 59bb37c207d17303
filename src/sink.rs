use crate::sample::{scoped_sample, MessageFrame, Sample};
use crate::scope::{joined, nested_scope, SinkError};

use crossbeam_channel::Sender;
use quanta::Clock;
use std::sync::atomic::{AtomicU64, Ordering};
use std::sync::Arc;

use vstd::prelude::*;

verus! {

#[verifier::external_type_specification]
#[verifier::external_body]
#[verifier::reject_recursive_types(T)]
pub struct ExSender<T>(Sender<T>);

pub assume_specification<T>[ <Sender<T> as Clone>::clone ](s: &Sender<T>) -> Sender<T>;

pub assume_specification[ <Clock as Clone>::clone ](c: &Clock) -> Clock;

/// Relies on `crossbeam_channel::Sender::send`: queues the frame, blocking while the channel
/// is full.  A send fails only once the aggregator is gone; the frame is then dropped, since
/// metrics are best-effort.
#[verifier::external_body]
fn send_frame(tx: &Sender<MessageFrame>, frame: MessageFrame) {
    let _ = tx.send(frame);
}

/// Handle for sending metric samples to the aggregator.
///
/// A sink can be cloned freely; clones share the scope of the sink they came from.  Every sample it sends
/// carries the id of its scope.
pub struct Sink {
    msg_tx: Sender<MessageFrame>,
    clock: Clock,
    scope_ids: Arc<AtomicU64>,
    scope: String,
    scope_id: u64,
}

impl Clone for Sink {
    /// A sink with the same scope and scope id, sending on the same channel; nothing is
    /// sent and no scope id is drawn.
    fn clone(&self) -> (r: Sink)
        ensures
            r.spec_scope() == self.spec_scope(),
            r.spec_scope_id() == self.spec_scope_id(),
    {
        Sink {
            msg_tx: self.msg_tx.clone(),
            clock: self.clock.clone(),
            scope_ids: self.scope_ids.clone(),
            scope: self.scope.clone(),
            scope_id: self.scope_id,
        }
    }
}

impl Sink {
    pub closed spec fn spec_scope(&self) -> Seq<char> {
        self.scope@
    }

    pub closed spec fn spec_scope_id(&self) -> u64 {
        self.scope_id
    }

    /// The root sink: empty scope, scope id 0.  Scoped sinks draw their ids from
    /// `scope_ids`, which should start at 1.
    pub fn new_root(msg_tx: Sender<MessageFrame>, clock: Clock, scope_ids: Arc<AtomicU64>) -> (r: Sink)
        ensures
            r.spec_scope() == Seq::<char>::empty(),
            r.spec_scope_id() == 0,
    {
        Sink { msg_tx, clock, scope_ids, scope: String::new(), scope_id: 0 }
    }

    /// The scope this sink names its metrics under.
    pub fn scope(&self) -> (r: &str)
        ensures
            r@ == self.spec_scope(),
    {
        self.scope.as_str()
    }

    /// The id of this sink's scope.
    pub fn scope_id(&self) -> (r: u64)
        ensures
            r == self.spec_scope_id(),
    {
        self.scope_id
    }

    /// Creates a sink nested under this one: its scope is this sink's scope and `suffix`
    /// joined with a `.`, and it gets a fresh scope id.  The new sink's `registration` frame
    /// is sent before anything else can be sent from it.  An empty suffix is refused and nothing is
    /// sent.
    pub fn scoped(&self, suffix: &str) -> (r: Result<Sink, SinkError>)
        ensures
            suffix@.len() == 0 ==> r == Err::<Sink, SinkError>(SinkError::InvalidScope),
            suffix@.len() > 0 ==> (r matches Ok(s) && s.spec_scope() == joined(
                self.spec_scope(),
                suffix@,
            )),
    {
        match nested_scope(self.scope.as_str(), suffix) {
            Err(e) => Err(e),
            Ok(scope) => {
                let scope_id = self.scope_ids.fetch_add(1, Ordering::Relaxed);
                let sink = Sink {
                    msg_tx: self.msg_tx.clone(),
                    clock: self.clock.clone(),
                    scope_ids: self.scope_ids.clone(),
                    scope,
                    scope_id,
                };
                send_frame(&self.msg_tx, sink.registration());
                Ok(sink)
            },
        }
    }

    /// The frame that registers this sink's scope with the aggregator: its scope id and
    /// scope.
    pub fn registration(&self) -> (r: MessageFrame)
        ensures
            r matches MessageFrame::RegisterScope(id, s) && id == self.spec_scope_id() && s@
                == self.spec_scope(),
    {
        MessageFrame::RegisterScope(self.scope_id, self.scope.clone())
    }

    /// The clock to read raw start and end times with, for timing samples.
    pub fn clock(&self) -> &Clock {
        &self.clock
    }

    /// The frame that carries `sample` from this sink.
    pub fn frame(&self, sample: Sample<String>) -> (r: MessageFrame)
        ensures
            r == MessageFrame::Data(scoped_sample(sample, self.spec_scope_id())),
    {
        MessageFrame::Data(sample.into_scoped(self.scope_id))
    }

    /// Sends a sample to the aggregator.
    fn send(&self, sample: Sample<String>) {
        send_frame(&self.msg_tx, self.frame(sample));
    }

    /// Adds `delta` to the counter of `key`.
    pub fn update_count(&self, key: String, delta: i64) {
        self.send(Sample::Count(key, delta))
    }

    /// Sets the gauge of `key` to `value`.
    pub fn update_gauge(&self, key: String, value: u64) {
        self.send(Sample::Gauge(key, value))
    }

    /// Records the time between two raw clock readings for `key`, with a count of one.
    pub fn update_timing(&self, key: String, start: u64, end: u64) {
        self.send(Sample::TimingHistogram(key, start, end, 1))
    }

    /// Records the time between two raw clock readings for `key`, and adds `count` to its
    /// counter.
    pub fn update_timing_with_count(&self, key: String, start: u64, end: u64, count: u64) {
        self.send(Sample::TimingHistogram(key, start, end, count))
    }

    /// Records `value` in the value distribution of `key`.
    pub fn update_value(&self, key: String, value: u64) {
        self.send(Sample::ValueHistogram(key, value))
    }

    /// Increments the counter of `key` by one.
    pub fn increment(&self, key: String) {
        self.update_count(key, 1)
    }

    /// Decrements the counter of `key` by one.
    pub fn decrement(&self, key: String) {
        self.update_count(key, -1)
    }
}

} // verus!
