//! The four tables of the oracle and the rules by which a metric enters them.

use vstd::prelude::*;
use crate::history::{lemma_add_wf, HistoryView, MetricHistory};
use crate::state::{get_price_key, metric_views, Config, Metric, MetricView, Price, PriceView};
use crate::table::Table;

verus! {

/// The freshness rule of the latest metrics and of the prices: an incoming
/// time wins where nothing is stored, or where it is strictly greater than
/// the stored time. A tie leaves what is stored.
pub open spec fn fresher(stored: Option<u64>, incoming: u64) -> bool {
    match stored {
        None => true,
        Some(time) => incoming > time,
    }
}

/// Decides the freshness rule.
pub fn is_fresher(stored: Option<u64>, incoming: u64) -> (r: bool)
    ensures
        r == fresher(stored, incoming),
{
    match stored {
        None => true,
        Some(time) => incoming > time,
    }
}

/// The oracle's state as a value.
pub struct OracleState {
    /// The address of the admin.
    pub admin: Seq<char>,
    /// The most recent metric of each key.
    pub latest: Map<Seq<char>, MetricView>,
    /// The retained history of each key.
    pub history: Map<Seq<char>, HistoryView>,
    /// The most recent price of each denom pair, by price key.
    pub prices: Map<Seq<char>, PriceView>,
}

impl OracleState {
    /// The state of an oracle that has taken no metric yet.
    pub open spec fn empty(admin: Seq<char>) -> OracleState {
        OracleState { admin, latest: Map::empty(), history: Map::empty(), prices: Map::empty() }
    }

    /// Every latest metric is filed under its own key, and every history is
    /// well formed.
    pub open spec fn wf(self) -> bool {
        &&& forall|k: Seq<char>| self.latest.contains_key(k) ==> (#[trigger] self.latest[k]).key == k
        &&& forall|k: Seq<char>| self.history.contains_key(k) ==> (#[trigger] self.history[k]).wf()
    }

    /// The update time of the latest metric of `key`, if there is one.
    pub open spec fn latest_time(self, key: Seq<char>) -> Option<u64> {
        if self.latest.contains_key(key) {
            Some(self.latest[key].time())
        } else {
            None
        }
    }

    /// The time of the price filed under `key`, if there is one.
    pub open spec fn price_time(self, key: Seq<char>) -> Option<u64> {
        if self.prices.contains_key(key) {
            Some(self.prices[key].last_updated)
        } else {
            None
        }
    }

    /// The history of `key`; that of a key never seen is empty.
    pub open spec fn history_of(self, key: Seq<char>) -> HistoryView {
        if self.history.contains_key(key) {
            self.history[key]
        } else {
            HistoryView::empty()
        }
    }

    /// The metric becomes the latest of its key if it is fresher than the
    /// one stored.
    pub open spec fn promote(self, metric: MetricView) -> OracleState {
        if fresher(self.latest_time(metric.key), metric.time()) {
            OracleState { latest: self.latest.insert(metric.key, metric), ..self }
        } else {
            self
        }
    }

    /// The metric is offered to the history of its key.
    pub open spec fn record(self, metric: MetricView) -> OracleState {
        OracleState { history: self.history.insert(metric.key, self.history_of(metric.key).add(metric)), ..self }
    }

    /// The price becomes the price of its denom pair if it is fresher than
    /// the one stored.
    pub open spec fn quote(self, price: PriceView) -> OracleState {
        if fresher(self.price_time(price.key()), price.last_updated) {
            OracleState { prices: self.prices.insert(price.key(), price), ..self }
        } else {
            self
        }
    }

    /// The state after an accepted metric, with the price derived from it if
    /// it gave one.
    pub open spec fn ingest(self, metric: MetricView, price: Option<PriceView>) -> OracleState {
        let stored = self.promote(metric).record(metric);
        match price {
            Some(p) => stored.quote(p),
            None => stored,
        }
    }
}

/// `listing` holds the metrics of `latest`, each once, in ascending byte
/// order of their keys.
pub open spec fn lists_in_key_order(listing: Seq<MetricView>, latest: Map<Seq<char>, MetricView>) -> bool {
    &&& forall|i: int, j: int| 0 <= i < j < listing.len() ==> crate::text::text_before(
        (#[trigger] listing[i]).key,
        (#[trigger] listing[j]).key,
    )
    &&& forall|i: int| 0 <= i < listing.len() ==> latest.contains_key((#[trigger] listing[i]).key) && latest[listing[i].key] == listing[i]
    &&& forall|k: Seq<char>| #[trigger] latest.contains_key(k) ==> exists|i: int| 0 <= i < listing.len() && #[trigger] listing[i] == latest[k]
}

/// An accepted metric leaves a well-formed state well formed.
pub proof fn lemma_ingest_wf(state: OracleState, metric: MetricView, price: Option<PriceView>)
    requires
        state.wf(),
    ensures
        state.ingest(metric, price).wf(),
{
    lemma_add_wf(state.history_of(metric.key), metric);
}

/// The tables of the oracle.
#[derive(Debug, PartialEq)]
pub struct Store {
    config: Config,
    latest_metrics: Table<Metric>,
    historical_metrics: Table<MetricHistory>,
    prices: Table<Price>,
}

impl View for Store {
    type V = OracleState;

    closed spec fn view(&self) -> OracleState {
        OracleState {
            admin: self.config@,
            latest: self.latest_metrics@.map_values(|m: Metric| m@),
            history: self.historical_metrics@.map_values(|h: MetricHistory| h@),
            prices: self.prices@.map_values(|p: Price| p@),
        }
    }
}

impl Store {
    /// The invariant of the store: its tables are in key order, and its state
    /// is well formed.
    pub closed spec fn wf(&self) -> bool {
        &&& self.latest_metrics.wf()
        &&& self.historical_metrics.wf()
        &&& self.prices.wf()
        &&& self@.wf()
    }

    /// The state of a well-formed store is well formed.
    pub proof fn lemma_wf(&self)
        requires
            self.wf(),
        ensures
            self@.wf(),
    {
    }

    /// A store with the given configuration and nothing else.
    pub fn new(config: Config) -> (r: Store)
        ensures
            r.wf(),
            r@ == OracleState::empty(config@),
    {
        let r = Store { config, latest_metrics: Table::new(), historical_metrics: Table::new(), prices: Table::new() };
        assert(r@.latest =~= Map::empty());
        assert(r@.history =~= Map::empty());
        assert(r@.prices =~= Map::empty());
        r
    }

    /// The configuration.
    pub fn config(&self) -> (r: &Config)
        ensures
            r@ == self@.admin,
    {
        &self.config
    }

    /// The latest metric of `key`, if one is stored.
    pub fn latest_metric(&self, key: &str) -> (r: Option<&Metric>)
        requires
            self.wf(),
        ensures
            match r {
                Some(m) => self@.latest.contains_key(key@) && m@ == self@.latest[key@],
                None => !self@.latest.contains_key(key@),
            },
    {
        self.latest_metrics.may_load(key)
    }

    /// The history of `key`, if one is stored.
    pub fn history(&self, key: &str) -> (r: Option<&MetricHistory>)
        requires
            self.wf(),
        ensures
            match r {
                Some(h) => self@.history.contains_key(key@) && h@ == self@.history[key@] && h.wf(),
                None => !self@.history.contains_key(key@),
            },
    {
        self.historical_metrics.may_load(key)
    }

    /// The price filed under the price key `key`, if one is stored.
    pub fn price(&self, key: &str) -> (r: Option<&Price>)
        requires
            self.wf(),
        ensures
            match r {
                Some(p) => self@.prices.contains_key(key@) && p@ == self@.prices[key@],
                None => !self@.prices.contains_key(key@),
            },
    {
        self.prices.may_load(key)
    }

    /// The latest metrics of all keys, in ascending byte order of the keys.
    pub fn latest_listing(&self) -> (r: Vec<Metric>)
        requires
            self.wf(),
        ensures
            lists_in_key_order(metric_views(r@), self@.latest),
    {
        let n = self.latest_metrics.len();
        let mut r: Vec<Metric> = Vec::new();
        let mut i: usize = 0;
        while i < n
            invariant
                self.wf(),
                n == self.latest_metrics.keys().len(),
                i <= n,
                r@.len() == i,
                forall|j: int| 0 <= j < i ==> (#[trigger] r@[j])@ == self.latest_metrics.values()[j]@,
            decreases n - i,
        {
            r.push(self.latest_metrics.value_at(i).clone());
            i += 1;
        }
        proof {
            let listing = metric_views(r@);
            let keys = self.latest_metrics.keys();
            assert forall|j: int| 0 <= j < listing.len() implies self@.latest.contains_key(keys[j]) && self@.latest[keys[j]]
                == #[trigger] listing[j] && listing[j].key == keys[j] by {
                self.latest_metrics.lemma_entry(j);
            }
            assert forall|k: Seq<char>| #[trigger] self@.latest.contains_key(k) implies exists|j: int|
                0 <= j < listing.len() && #[trigger] listing[j] == self@.latest[k] by {
                let j = keys.index_of(k);
                assert(keys.contains(k));
                assert(listing[j] == self@.latest[k]);
            }
        }
        r
    }

    /// Files `metric` as the latest of its key, whatever is stored there.
    /// This is for loading a store from what was saved of it.
    pub fn restore_latest(&mut self, metric: Metric)
        requires
            old(self).wf(),
        ensures
            final(self).wf(),
            final(self)@ == (OracleState { latest: old(self)@.latest.insert(metric@.key, metric@), ..old(self)@ }),
    {
        let key = metric.key.clone();
        self.latest_metrics.save(key, metric);
        assert(self@.latest =~= old(self)@.latest.insert(metric@.key, metric@));
        assert(self@ == (OracleState { latest: old(self)@.latest.insert(metric@.key, metric@), ..old(self)@ }));
    }

    /// Files `history` as the history of `key`, whatever is stored there.
    /// This is for loading a store from what was saved of it.
    pub fn restore_history(&mut self, key: String, history: MetricHistory)
        requires
            old(self).wf(),
            history.wf(),
        ensures
            final(self).wf(),
            final(self)@ == (OracleState { history: old(self)@.history.insert(key@, history@), ..old(self)@ }),
    {
        self.historical_metrics.save(key, history);
        assert(self@.history =~= old(self)@.history.insert(key@, history@));
        assert(self@ == (OracleState { history: old(self)@.history.insert(key@, history@), ..old(self)@ }));
    }

    /// Files `price` under the key of its denom pair, whatever is stored
    /// there. This is for loading a store from what was saved of it.
    pub fn restore_price(&mut self, price: Price)
        requires
            old(self).wf(),
        ensures
            final(self).wf(),
            final(self)@ == (OracleState { prices: old(self)@.prices.insert(price@.key(), price@), ..old(self)@ }),
    {
        let key = get_price_key(price.denom.as_str(), price.base_denom.as_str());
        self.prices.save(key, price);
        assert(self@.prices =~= old(self)@.prices.insert(price@.key(), price@));
        assert(self@ == (OracleState { prices: old(self)@.prices.insert(price@.key(), price@), ..old(self)@ }));
    }

    /// Applies the freshness rule to the latest metric of the key.
    pub fn promote(&mut self, metric: Metric)
        requires
            old(self).wf(),
        ensures
            final(self).wf(),
            final(self)@ == old(self)@.promote(metric@),
    {
        let stored = match self.latest_metrics.may_load(metric.key.as_str()) {
            Some(m) => Some(m.metadata.update_time),
            None => None,
        };
        if is_fresher(stored, metric.metadata.update_time) {
            let key = metric.key.clone();
            self.latest_metrics.save(key, metric);
            assert(self@.latest =~= old(self)@.latest.insert(metric@.key, metric@));
            assert(self@ == old(self)@.promote(metric@));
            assert(old(self)@.promote(metric@).wf());
        }
    }

    /// Offers the metric to the history of its key, starting a history where
    /// the key has none.
    pub fn record(&mut self, metric: Metric)
        requires
            old(self).wf(),
        ensures
            final(self).wf(),
            final(self)@ == old(self)@.record(metric@),
    {
        let key = metric.key.clone();
        let mut history = match self.historical_metrics.may_load(key.as_str()) {
            Some(history) => history.clone(),
            None => MetricHistory::new(),
        };
        assert(history@ == old(self)@.history_of(metric@.key));
        history.add(metric);
        self.historical_metrics.save(key, history);
        assert(self@.history =~= old(self)@.history.insert(metric@.key, old(self)@.history_of(metric@.key).add(metric@)));
    }

    /// Applies the freshness rule to the price of the denom pair.
    pub fn quote(&mut self, price: Price)
        requires
            old(self).wf(),
        ensures
            final(self).wf(),
            final(self)@ == old(self)@.quote(price@),
    {
        let key = get_price_key(price.denom.as_str(), price.base_denom.as_str());
        let stored = match self.prices.may_load(key.as_str()) {
            Some(p) => Some(p.last_updated),
            None => None,
        };
        if is_fresher(stored, price.last_updated) {
            self.prices.save(key, price);
            assert(self@.prices =~= old(self)@.prices.insert(price@.key(), price@));
            assert(self@ == old(self)@.quote(price@));
            assert(old(self)@.quote(price@).wf());
        }
    }
}

} // verus!
