use crate::table::{
    clone_key,
    key_view, unsigned_entries, unsigned_table_get, unsigned_table_insert, unsigned_table_new,
    KeyView, ScopedKey, ScopedTable,
};
use crate::hdr::saturating_len;
use crate::window::{bucket_count, HistogramSnapshot, WindowModel, WindowedHistogram};

use vstd::multiset::Multiset;
use vstd::prelude::*;

verus! {

/// The model of a window created at time `now`: every bucket empty.
pub open spec fn fresh_window(window: nat, granularity: nat, now: nat) -> WindowModel {
    WindowModel {
        buckets: Seq::new(bucket_count(window, granularity), |i: int| Multiset::<u64>::empty()),
        index: 0,
        last_upkeep: now,
        granularity,
        sum: 0,
    }
}

/// A value recorded under a key: into its window, created on first use.
pub open spec fn observed(
    m: Map<KeyView, WindowModel>,
    k: KeyView,
    v: u64,
    window: nat,
    granularity: nat,
    now: nat,
) -> Map<KeyView, WindowModel> {
    if m.contains_key(k) {
        m.insert(k, m[k].recorded(v))
    } else {
        m.insert(k, fresh_window(window, granularity, now).recorded(v))
    }
}

/// Per-key windowed histograms, created on the first value recorded for a key.
///
/// Windows sit in insertion order; a table from key to position finds them.
pub struct Histogram {
    window: u64,
    granularity: u64,
    index: ScopedTable<u64>,
    keys: Vec<ScopedKey>,
    windows: Vec<WindowedHistogram>,
}

impl Histogram {
    pub closed spec fn wf(&self) -> bool {
        &&& self.granularity > 0
        &&& self.window / self.granularity < usize::MAX
        &&& self.keys@.len() == self.windows@.len()
        &&& forall|i: int|
            0 <= i < self.windows@.len() ==> {
                &&& (#[trigger] self.windows@[i]).wf()
                &&& self.windows@[i].model().wf()
                &&& self.windows@[i].model().granularity == self.granularity
                &&& self.windows@[i].model().buckets.len() == bucket_count(
                    self.window as nat,
                    self.granularity as nat,
                )
            }
        &&& forall|i: int|
            0 <= i < self.keys@.len() ==> unsigned_entries(self.index).contains_key(
                key_view(#[trigger] &self.keys@[i]),
            ) && unsigned_entries(self.index)[key_view(&self.keys@[i])] == i
        &&& forall|k: KeyView| #[trigger]
            unsigned_entries(self.index).contains_key(k) ==> {
                let i = unsigned_entries(self.index)[k] as int;
                0 <= i < self.keys@.len() && key_view(&self.keys@[i]) == k
            }
    }

    /// The window of each key.
    pub closed spec fn view(&self) -> Map<KeyView, WindowModel> {
        Map::new(
            |k: KeyView| unsigned_entries(self.index).contains_key(k),
            |k: KeyView| self.windows@[unsigned_entries(self.index)[k] as int].model(),
        )
    }

    pub closed spec fn spec_window(&self) -> nat {
        self.window as nat
    }

    pub closed spec fn spec_granularity(&self) -> nat {
        self.granularity as nat
    }

    /// Every window in the store is well formed and of the store's shape.
    pub open spec fn windows_wf(&self) -> bool {
        forall|k: KeyView|
            #![trigger self.view()[k]]
            self.view().contains_key(k) ==> self.view()[k].wf() && self.view()[k].granularity
                == self.spec_granularity() && self.view()[k].buckets.len() == bucket_count(
                self.spec_window(),
                self.spec_granularity(),
            )
    }

    pub fn new(window: u64, granularity: u64) -> (r: Histogram)
        requires
            granularity > 0,
            window / granularity < usize::MAX,
        ensures
            r.wf(),
            r.view() == Map::<KeyView, WindowModel>::empty(),
            r.spec_window() == window,
            r.spec_granularity() == granularity,
    {
        let r = Histogram {
            window,
            granularity,
            index: unsigned_table_new(),
            keys: Vec::new(),
            windows: Vec::new(),
        };
        assert(r.view() =~= Map::<KeyView, WindowModel>::empty());
        r
    }

    proof fn lemma_windows_wf(&self)
        requires
            self.wf(),
        ensures
            self.windows_wf(),
    {
        assert forall|k: KeyView| #![trigger self.view()[k]] self.view().contains_key(k) implies self.view()[k].wf()
            && self.view()[k].granularity == self.spec_granularity() && self.view()[k].buckets.len()
            == bucket_count(self.spec_window(), self.spec_granularity()) by {
            let i = unsigned_entries(self.index)[k] as int;
            assert(self.windows@[i].wf());
        }
    }

    /// Records `value` under `key`, creating the key's window (last rotated at `now`) on
    /// first use.
    pub fn update(&mut self, key: ScopedKey, value: u64, now: u64)
        requires
            old(self).wf(),
        ensures
            final(self).wf(),
            final(self).view() == observed(
                old(self).view(),
                key_view(&key),
                value,
                old(self).spec_window(),
                old(self).spec_granularity(),
                now as nat,
            ),
            final(self).spec_window() == old(self).spec_window(),
            final(self).spec_granularity() == old(self).spec_granularity(),
    {
        let ghost kv = key_view(&key);
        match unsigned_table_get(&self.index, &key) {
            Some(pos) => {
                proof {
                    assert(unsigned_entries(self.index).contains_key(kv));
                    assert(pos < self.keys@.len());
                }
                let n = self.keys.len();
                let i = pos as usize;
                assert(i == pos);
                self.windows[i].update(value);
                proof {
                    let ix = unsigned_entries(self.index);
                    assert(ix.contains_key(kv));
                    assert(ix[kv] == pos);
                    assert(i as int == pos as int);
                    assert(key_view(&self.keys@[i as int]) == kv);
                    assert forall|j: int| 0 <= j < self.windows@.len() && j != i implies self.windows@[j]
                        == old(self).windows@[j] by {}
                    let target = observed(
                        old(self).view(),
                        kv,
                        value,
                        self.window as nat,
                        self.granularity as nat,
                        now as nat,
                    );
                    assert(old(self).view().contains_key(kv));
                    assert forall|k: KeyView| #[trigger] self.view().contains_key(k) implies self.view()[k]
                        == target[k] by {
                        if k != kv {
                            let j = ix[k] as int;
                            assert(key_view(&self.keys@[j]) == k);
                            assert(j != i);
                        }
                    }
                    assert(self.view().dom() =~= target.dom());
                    assert(self.view() =~= observed(
                        old(self).view(),
                        kv,
                        value,
                        self.window as nat,
                        self.granularity as nat,
                        now as nat,
                    ));
                }
            },
            None => {
                let mut wh = WindowedHistogram::new(self.window, self.granularity, now);
                wh.update(value);
                let pos = self.keys.len() as u64;
                unsigned_table_insert(&mut self.index, clone_key(&key), pos);
                self.keys.push(key);
                self.windows.push(wh);
                proof {
                    assert(wh.model().buckets =~= fresh_window(
                        self.window as nat,
                        self.granularity as nat,
                        now as nat,
                    ).recorded(value).buckets);
                    assert(self.view() =~= observed(
                        old(self).view(),
                        kv,
                        value,
                        self.window as nat,
                        self.granularity as nat,
                        now as nat,
                    ));
                }
            },
        }
    }

    /// Upkeep of every window at time `at`.
    pub fn upkeep(&mut self, at: u64)
        requires
            old(self).wf(),
        ensures
            final(self).wf(),
            final(self).view().dom() == old(self).view().dom(),
            forall|k: KeyView| #[trigger]
                final(self).view().contains_key(k) ==> final(self).view()[k] == old(
                    self,
                ).view()[k].upkept(at as nat),
            final(self).spec_window() == old(self).spec_window(),
            final(self).spec_granularity() == old(self).spec_granularity(),
    {
        let mut i: usize = 0;
        while i < self.windows.len()
            invariant
                self.wf(),
                0 <= i <= self.windows@.len(),
                self.index == old(self).index,
                self.keys == old(self).keys,
                self.window == old(self).window,
                self.granularity == old(self).granularity,
                self.windows@.len() == old(self).windows@.len(),
                forall|j: int|
                    0 <= j < i ==> (#[trigger] self.windows@[j]).model() == old(
                        self,
                    ).windows@[j].model().upkept(at as nat),
                forall|j: int|
                    i <= j < self.windows@.len() ==> #[trigger] self.windows@[j] == old(
                        self,
                    ).windows@[j],
            decreases self.windows@.len() - i,
        {
            self.windows[i].upkeep(at);
            i = i + 1;
        }
        proof {
            assert(self.view().dom() =~= old(self).view().dom());
        }
    }

    /// A snapshot of every window, each key once.
    pub fn values(&self) -> (r: Vec<(ScopedKey, HistogramSnapshot)>)
        requires
            self.wf(),
        ensures
            lists_exactly_windows(r@, self.view()),
    {
        let mut r: Vec<(ScopedKey, HistogramSnapshot)> = Vec::new();
        let mut i: usize = 0;
        while i < self.windows.len()
            invariant
                self.wf(),
                0 <= i <= self.windows@.len(),
                r@.len() == i,
                forall|j: int|
                    0 <= j < i ==> key_view(&(#[trigger] r@[j]).0) == key_view(&self.keys@[j])
                        && r@[j].1.samples() == self.windows@[j].model().contents()
                        && r@[j].1.spec_count() == saturating_len(
                        self.windows@[j].model().contents().len(),
                    ) && r@[j].1.spec_sum() == self.windows@[j].model().sum,
            decreases self.windows@.len() - i,
        {
            let snap = self.windows[i].snapshot();
            let key = clone_key(&self.keys[i]);
            r.push((key, snap));
            i = i + 1;
        }
        proof {
            let m = self.view();
            let ix = unsigned_entries(self.index);
            assert forall|j: int| 0 <= j < r@.len() implies #[trigger] m.contains_key(key_view(&r@[j].0))
                && r@[j].1.samples() == m[key_view(&r@[j].0)].contents() && r@[j].1.spec_count()
                == saturating_len(m[key_view(&r@[j].0)].contents().len()) && r@[j].1.spec_sum()
                == m[key_view(&r@[j].0)].sum by {
                assert(ix.contains_key(key_view(&self.keys@[j])));
            }
            assert forall|k: KeyView| #[trigger] m.contains_key(k) implies exists|j: int|
                0 <= j < r@.len() && key_view(&r@[j].0) == k by {
                let j = ix[k] as int;
                assert(key_view(&r@[j].0) == k);
            }
            assert forall|a: int, b: int|
                0 <= a < r@.len() && 0 <= b < r@.len() && a != b implies key_view(&r@[a].0)
                != key_view(&r@[b].0) by {
                assert(ix[key_view(&self.keys@[a])] == a);
                assert(ix[key_view(&self.keys@[b])] == b);
            }
        }
        r
    }
}

/// `s` lists each window of `m` exactly once, as a snapshot of its contents, with their
/// count and sum.
pub open spec fn lists_exactly_windows(
    s: Seq<(ScopedKey, HistogramSnapshot)>,
    m: Map<KeyView, WindowModel>,
) -> bool {
    &&& forall|i: int|
        0 <= i < s.len() ==> m.contains_key(key_view(&(#[trigger] s[i]).0)) && s[i].1.samples()
            == m[key_view(&s[i].0)].contents() && s[i].1.spec_count() == saturating_len(
            m[key_view(&s[i].0)].contents().len(),
        ) && s[i].1.spec_sum() == m[key_view(&s[i].0)].sum
    &&& forall|k: KeyView| #[trigger]
        m.contains_key(k) ==> exists|i: int| 0 <= i < s.len() && key_view(&s[i].0) == k
    &&& forall|i: int, j: int|
        0 <= i < s.len() && 0 <= j < s.len() && i != j ==> key_view(&s[i].0) != key_view(
            &s[j].0,
        )
}

} // verus!
