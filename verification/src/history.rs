//! The bounded history of one key: its metrics in ascending order of update
//! time, one per time, the oldest dropped when the capacity is exceeded.

use std::collections::VecDeque;
use vstd::prelude::*;
use crate::state::{metric_views, Metric, MetricView};
use crate::table::Slot;

verus! {

/// The number of metrics that a new history retains.
pub const DEFAULT_CAPACITY: u64 = 100;

/// Each entry is strictly older than all the entries behind it.
pub open spec fn times_ascending(entries: Seq<MetricView>) -> bool {
    forall|i: int, j: int| 0 <= i < j < entries.len() ==> (#[trigger] entries[i]).time() < (#[trigger] entries[j]).time()
}

/// Whether an entry of that update time is present.
pub open spec fn has_time(entries: Seq<MetricView>, time: u64) -> bool {
    exists|i: int| 0 <= i < entries.len() && (#[trigger] entries[i]).time() == time
}

/// The number of entries that are strictly older than `time`.
pub open spec fn older_count(entries: Seq<MetricView>, time: u64) -> int
    decreases entries.len(),
{
    if entries.len() == 0 {
        0
    } else {
        older_count(entries.drop_last(), time) + if entries.last().time() < time {
            1int
        } else {
            0int
        }
    }
}

/// A history as a value: its entries, oldest first, and its capacity.
pub struct HistoryView {
    pub entries: Seq<MetricView>,
    pub capacity: nat,
}

impl HistoryView {
    /// The empty history of the default capacity.
    pub open spec fn empty() -> HistoryView {
        HistoryView { entries: Seq::empty(), capacity: DEFAULT_CAPACITY as nat }
    }

    /// Room for at least one entry, no more entries than the capacity allows,
    /// strictly ascending update times.
    pub open spec fn wf(self) -> bool {
        &&& 1 <= self.capacity
        &&& self.entries.len() <= self.capacity
        &&& times_ascending(self.entries)
    }

    /// The history after `metric` was offered to it. A metric whose update
    /// time is present already is dropped. Any other is put in its place in
    /// the order, and if that exceeds the capacity the oldest entry leaves.
    pub open spec fn add(self, metric: MetricView) -> HistoryView {
        if has_time(self.entries, metric.time()) {
            self
        } else {
            let grown = self.entries.insert(older_count(self.entries, metric.time()), metric);
            HistoryView {
                entries: if grown.len() > self.capacity {
                    grown.drop_first()
                } else {
                    grown
                },
                capacity: self.capacity,
            }
        }
    }

    /// The entry of the greatest update time.
    pub open spec fn latest(self) -> Option<MetricView> {
        if self.entries.len() == 0 {
            None
        } else {
            Some(self.entries.last())
        }
    }

    /// The `n` most recent entries, or all if there are fewer, oldest first.
    pub open spec fn latest_range(self, n: nat) -> Seq<MetricView> {
        if n >= self.entries.len() {
            self.entries
        } else {
            self.entries.subrange(self.entries.len() - n, self.entries.len() as int)
        }
    }
}

/// In ascending entries, the index that parts the older entries from the
/// newer ones is the number of older entries.
pub proof fn lemma_older_count_at_split(entries: Seq<MetricView>, time: u64, i: int)
    requires
        0 <= i <= entries.len(),
        forall|j: int| 0 <= j < i ==> (#[trigger] entries[j]).time() < time,
        forall|j: int| i <= j < entries.len() ==> (#[trigger] entries[j]).time() >= time,
    ensures
        older_count(entries, time) == i,
    decreases entries.len(),
{
    if entries.len() > 0 {
        let rest = entries.drop_last();
        if i == entries.len() {
            lemma_older_count_at_split(rest, time, i - 1);
        } else {
            lemma_older_count_at_split(rest, time, i);
        }
    }
}

/// The number of older entries is an index into the entries, or their length.
pub proof fn lemma_older_count_bounds(entries: Seq<MetricView>, time: u64)
    ensures
        0 <= older_count(entries, time) <= entries.len(),
    decreases entries.len(),
{
    if entries.len() > 0 {
        lemma_older_count_bounds(entries.drop_last(), time);
    }
}

/// In ascending entries the older entries come first: those before the index
/// `older_count` are older than `time`, those from it on are not.
pub proof fn lemma_older_count_splits(entries: Seq<MetricView>, time: u64)
    requires
        times_ascending(entries),
    ensures
        0 <= older_count(entries, time) <= entries.len(),
        forall|j: int| 0 <= j < older_count(entries, time) ==> (#[trigger] entries[j]).time() < time,
        forall|j: int| older_count(entries, time) <= j < entries.len() ==> (#[trigger] entries[j]).time() >= time,
    decreases entries.len(),
{
    if entries.len() > 0 {
        let rest = entries.drop_last();
        assert forall|a: int, b: int| 0 <= a < b < rest.len() implies (#[trigger] rest[a]).time() < (#[trigger] rest[b]).time() by {
            assert(rest[a] == entries[a]);
            assert(rest[b] == entries[b]);
        }
        lemma_older_count_splits(rest, time);
        let c = older_count(rest, time);
        assert forall|j: int| 0 <= j < older_count(entries, time) implies (#[trigger] entries[j]).time() < time by {
            if j < rest.len() {
                assert(entries[j] == rest[j]);
                if j >= c {
                    // the last entry is older than `time`, and `j` stands before it
                    assert(entries.last().time() < time);
                    assert(entries[j].time() < entries[entries.len() - 1].time());
                }
            }
        }
        assert forall|j: int| older_count(entries, time) <= j < entries.len() implies (#[trigger] entries[j]).time() >= time by {
            if j < rest.len() {
                assert(entries[j] == rest[j]);
            }
        }
    }
}

/// Offering a metric to a well-formed history leaves it well formed.
pub proof fn lemma_add_wf(history: HistoryView, metric: MetricView)
    requires
        history.wf(),
    ensures
        history.add(metric).wf(),
{
    let time = metric.time();
    if !has_time(history.entries, time) {
        lemma_older_count_splits(history.entries, time);
        let i = older_count(history.entries, time);
        let grown = history.entries.insert(i, metric);
        assert forall|a: int, b: int| 0 <= a < b < grown.len() implies (#[trigger] grown[a]).time() < (#[trigger] grown[b]).time() by {
            let a0 = if a < i { a } else { a - 1 };
            let b0 = if b < i { b } else { b - 1 };
            if a != i {
                assert(grown[a] == history.entries[a0]);
            }
            if b != i {
                assert(grown[b] == history.entries[b0]);
            }
        }
        if grown.len() > history.capacity {
            let kept = grown.drop_first();
            assert forall|a: int, b: int| 0 <= a < b < kept.len() implies (#[trigger] kept[a]).time() < (#[trigger] kept[b]).time() by {
                assert(kept[a] == grown[a + 1]);
                assert(kept[b] == grown[b + 1]);
            }
        }
    }
}

/// The history of one key.
#[derive(Debug, PartialEq)]
pub struct MetricHistory {
    deque: VecDeque<Metric>,
    capacity: u64,
}

impl View for MetricHistory {
    type V = HistoryView;

    closed spec fn view(&self) -> HistoryView {
        HistoryView { entries: metric_views(self.deque@), capacity: self.capacity as nat }
    }
}

impl MetricHistory {
    /// The invariant of a history; see `HistoryView::wf`.
    pub open spec fn wf(&self) -> bool {
        self@.wf()
    }

    /// An empty history that retains up to `DEFAULT_CAPACITY` metrics.
    pub fn new() -> (r: Self)
        ensures
            r.wf(),
            r@ == HistoryView::empty(),
    {
        let capacity = DEFAULT_CAPACITY;
        let r = MetricHistory { deque: VecDeque::with_capacity(DEFAULT_CAPACITY as usize), capacity };
        assert(r@.entries =~= Seq::<MetricView>::empty());
        r
    }

    /// The number of metrics that the history retains at most.
    pub fn capacity(&self) -> (r: u64)
        ensures
            r == self@.capacity,
    {
        self.capacity
    }

    /// Finds the entry of update time `time` by binary search, or the index
    /// at which such an entry would have to be put.
    fn locate(&self, time: u64) -> (slot: Slot)
        requires
            self.wf(),
        ensures
            match slot {
                Slot::Held(i) => i < self@.entries.len() && self@.entries[i as int].time() == time,
                Slot::Free(i) => {
                    &&& !has_time(self@.entries, time)
                    &&& i == older_count(self@.entries, time)
                    &&& i <= self@.entries.len()
                },
            },
    {
        let ghost entries = self@.entries;
        let mut low: usize = 0;
        let mut high: usize = self.deque.len();
        while low < high
            invariant
                self.wf(),
                entries == self@.entries,
                entries.len() == self.deque@.len(),
                low <= high <= entries.len(),
                forall|j: int| 0 <= j < low ==> (#[trigger] entries[j]).time() < time,
                forall|j: int| high <= j < entries.len() ==> (#[trigger] entries[j]).time() > time,
            decreases high - low,
        {
            let mid = low + (high - low) / 2;
            let at = self.deque[mid].metadata.update_time;
            assert(entries[mid as int] == self.deque@[mid as int]@);
            if at == time {
                return Slot::Held(mid);
            } else if at < time {
                low = mid + 1;
            } else {
                high = mid;
            }
        }
        proof {
            lemma_older_count_at_split(entries, time, low as int);
        }
        Slot::Free(low)
    }

    /// Offers a metric to the history. One whose update time is present
    /// already is dropped, whatever else it holds. Any other is put in its
    /// place in the order of update times; if the history then exceeds its
    /// capacity, its oldest entry is removed.
    pub fn add(&mut self, metric: Metric)
        requires
            old(self).wf(),
        ensures
            final(self).wf(),
            final(self)@ == old(self)@.add(metric@),
    {
        proof {
            lemma_add_wf(self@, metric@);
        }
        match self.locate(metric.metadata.update_time) {
            Slot::Held(_) => {},
            Slot::Free(index) => {
                self.deque.insert(index, metric);
                assert(metric_views(self.deque@) =~= old(self)@.entries.insert(index as int, metric@));
                if self.deque.len() as u64 > self.capacity {
                    let ghost grown = metric_views(self.deque@);
                    self.deque.pop_front();
                    assert(metric_views(self.deque@) =~= grown.drop_first());
                }
            },
        }
    }

    /// The most recent metric: the one of the greatest update time.
    pub fn get_latest(&self) -> (r: Option<Metric>)
        ensures
            match r {
                Some(m) => self@.latest() == Some(m@),
                None => self@.latest() is None,
            },
    {
        let n = self.deque.len();
        if n == 0 {
            None
        } else {
            Some(self.deque[n - 1].clone())
        }
    }

    /// The `n` most recent metrics, or all of them if there are fewer, in
    /// ascending order of update time.
    pub fn get_latest_range(&self, n: usize) -> (r: Vec<Metric>)
        ensures
            metric_views(r@) == self@.latest_range(n as nat),
    {
        let len = self.deque.len();
        let start = if n >= len { 0 } else { len - n };
        let mut r: Vec<Metric> = Vec::new();
        let mut i = start;
        while i < len
            invariant
                len == self.deque@.len(),
                start <= i <= len,
                r@.len() == i - start,
                forall|j: int| 0 <= j < r@.len() ==> (#[trigger] r@[j])@ == self.deque@[start + j]@,
            decreases len - i,
        {
            r.push(self.deque[i].clone());
            i += 1;
        }
        assert(metric_views(r@) =~= self@.latest_range(n as nat));
        r
    }

    /// All metrics of the history, in ascending order of update time.
    pub fn get_all_metrics(&self) -> (r: Vec<Metric>)
        ensures
            metric_views(r@) == self@.entries,
    {
        let len = self.deque.len();
        let mut r: Vec<Metric> = Vec::new();
        let mut i: usize = 0;
        while i < len
            invariant
                len == self.deque@.len(),
                i <= len,
                r@.len() == i,
                forall|j: int| 0 <= j < r@.len() ==> (#[trigger] r@[j])@ == self.deque@[j]@,
            decreases len - i,
        {
            r.push(self.deque[i].clone());
            i += 1;
        }
        assert(metric_views(r@) =~= self@.entries);
        r
    }
}

impl Clone for MetricHistory {
    fn clone(&self) -> (r: Self)
        ensures
            r@ == self@,
    {
        let len = self.deque.len();
        let mut deque: VecDeque<Metric> = VecDeque::with_capacity(len);
        let mut i: usize = 0;
        while i < len
            invariant
                len == self.deque@.len(),
                i <= len,
                deque@.len() == i,
                forall|j: int| 0 <= j < deque@.len() ==> (#[trigger] deque@[j])@ == self.deque@[j]@,
            decreases len - i,
        {
            deque.push_back(self.deque[i].clone());
            i += 1;
        }
        let r = MetricHistory { deque, capacity: self.capacity };
        assert(r@.entries =~= self@.entries);
        r
    }
}

} // verus!
