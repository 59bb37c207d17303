use crate::table::{
    signed_entries, signed_table_entries, signed_table_get, signed_table_insert, signed_table_new,
    unsigned_entries, unsigned_table_entries, unsigned_table_insert,
    unsigned_table_new, key_view, lists_exactly_signed, lists_exactly_unsigned, KeyView,
    ScopedKey, ScopedTable,
};

use vstd::prelude::*;

verus! {

/// The value of a counter that has never been updated is zero.
pub open spec fn count_or_zero(m: Map<KeyView, i64>, k: KeyView) -> i64 {
    if m.contains_key(k) {
        m[k]
    } else {
        0
    }
}

/// A counter update: the delta is added to the current value, wrapping on overflow.
pub open spec fn counted(m: Map<KeyView, i64>, k: KeyView, delta: i64) -> Map<KeyView, i64> {
    m.insert(k, count_or_zero(m, k).wrapping_add(delta))
}

/// Per-key signed counters.
pub struct Counter {
    data: ScopedTable<i64>,
}

impl Counter {
    pub closed spec fn view(&self) -> Map<KeyView, i64> {
        signed_entries(self.data)
    }

    pub fn new() -> (r: Counter)
        ensures
            r.view() == Map::<KeyView, i64>::empty(),
    {
        let r = Counter { data: signed_table_new() };
        assert(r.view() =~= Map::<KeyView, i64>::empty());
        r
    }

    /// Adds `delta` to the counter of `key`, which starts at zero.
    pub fn update(&mut self, key: ScopedKey, delta: i64)
        ensures
            final(self).view() == counted(old(self).view(), key_view(&key), delta),
    {
        let current = match signed_table_get(&self.data, &key) {
            Some(v) => v,
            None => 0,
        };
        let next = current.wrapping_add(delta);
        signed_table_insert(&mut self.data, key, next);
    }

    /// Every counter with its value, each once.
    pub fn values(&self) -> (r: Vec<(ScopedKey, i64)>)
        ensures
            lists_exactly_signed(r@, self.view()),
    {
        signed_table_entries(&self.data)
    }
}

/// Per-key gauges: the last value written wins.
pub struct Gauge {
    data: ScopedTable<u64>,
}

impl Gauge {
    pub closed spec fn view(&self) -> Map<KeyView, u64> {
        unsigned_entries(self.data)
    }

    pub fn new() -> (r: Gauge)
        ensures
            r.view() == Map::<KeyView, u64>::empty(),
    {
        let r = Gauge { data: unsigned_table_new() };
        assert(r.view() =~= Map::<KeyView, u64>::empty());
        r
    }

    /// Sets the gauge of `key` to `value`.
    pub fn update(&mut self, key: ScopedKey, value: u64)
        ensures
            final(self).view() == old(self).view().insert(key_view(&key), value),
    {
        unsigned_table_insert(&mut self.data, key, value);
    }

    /// Every gauge with its value, each once.
    pub fn values(&self) -> (r: Vec<(ScopedKey, u64)>)
        ensures
            lists_exactly_unsigned(r@, self.view()),
    {
        unsigned_table_entries(&self.data)
    }
}

} // verus!
