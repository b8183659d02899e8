//! The queries: read-only projections of the store.

use vstd::prelude::*;
use crate::error::{ContractError, ErrorView};
use crate::msg::{Metrics, PriceResponse};
use crate::state::{get_price_key, metric_views, price_key, Config, Metric, MetricView};
use crate::store::{lists_in_key_order, Store, OracleState};
use crate::text::same_text;

verus! {

impl OracleState {
    /// The latest metric of `key`, or `NotFound` where the key has none.
    pub open spec fn latest_metric(self, key: Seq<char>) -> Result<MetricView, ErrorView> {
        if self.latest.contains_key(key) {
            Ok(self.latest[key])
        } else {
            Err(ErrorView::NotFound { key })
        }
    }

    /// The history of `key`, oldest first, or `NotFound` where no metric of
    /// that key was ever stored.
    pub open spec fn historical_metrics(self, key: Seq<char>) -> Result<Seq<MetricView>, ErrorView> {
        if self.history.contains_key(key) {
            Ok(self.history[key].entries)
        } else {
            Err(ErrorView::NotFound { key })
        }
    }

    /// The answer to a price query. Parameters are refused. The price is
    /// looked up under the key of the denom pair, and is given out only if
    /// it was filed for the base denom that the query names.
    pub open spec fn price(self, denom: Seq<char>, base_denom: Seq<char>, with_params: bool) -> Result<
        PriceResponse,
        ErrorView,
    > {
        let key = price_key(denom, base_denom);
        if with_params {
            Err(ErrorView::InvalidRequest)
        } else if !self.prices.contains_key(key) {
            Err(ErrorView::NotFound { key })
        } else if self.prices[key].base_denom != base_denom {
            Err(ErrorView::InconsistentPriceRecord { denom, base_denom, expected: self.prices[key].base_denom })
        } else {
            Ok(
                PriceResponse {
                    exchange_rate: self.prices[key].exchange_rate,
                    last_updated: self.prices[key].last_updated,
                },
            )
        }
    }
}

/// The view of the result of a query for one metric.
pub open spec fn metric_result_view(r: Result<Metric, ContractError>) -> Result<MetricView, ErrorView> {
    match r {
        Ok(m) => Ok(m@),
        Err(e) => Err(e@),
    }
}

/// The view of the result of a query for a list of metrics.
pub open spec fn metrics_result_view(r: Result<Metrics, ContractError>) -> Result<Seq<MetricView>, ErrorView> {
    match r {
        Ok(m) => Ok(metric_views(m.metrics@)),
        Err(e) => Err(e@),
    }
}

/// The view of the result of a price query.
pub open spec fn price_result_view(r: Result<PriceResponse, ContractError>) -> Result<PriceResponse, ErrorView> {
    match r {
        Ok(p) => Ok(p),
        Err(e) => Err(e@),
    }
}

/// Returns the configuration.
pub fn get_config(store: &Store) -> (r: Result<Config, ContractError>)
    ensures
        r is Ok,
        r->Ok_0@ == store@.admin,
{
    Ok(store.config().clone())
}

/// Returns the most recent metric of `key`.
pub fn get_latest_metric(store: &Store, key: String) -> (r: Result<Metric, ContractError>)
    requires
        store.wf(),
    ensures
        metric_result_view(r) == store@.latest_metric(key@),
{
    match store.latest_metric(key.as_str()) {
        Some(metric) => Ok(metric.clone()),
        None => Err(ContractError::NotFound { key }),
    }
}

/// Returns the most recent metric of every key, in ascending byte order of
/// the keys.
pub fn get_all_latest_metrics(store: &Store) -> (r: Result<Metrics, ContractError>)
    requires
        store.wf(),
    ensures
        r is Ok,
        lists_in_key_order(metric_views(r->Ok_0.metrics@), store@.latest),
{
    Ok(Metrics { metrics: store.latest_listing() })
}

/// Returns the retained history of `key`, in ascending order of update time.
pub fn get_historical_metrics(store: &Store, key: String) -> (r: Result<Metrics, ContractError>)
    requires
        store.wf(),
    ensures
        metrics_result_view(r) == store@.historical_metrics(key@),
{
    match store.history(key.as_str()) {
        Some(history) => Ok(Metrics { metrics: history.get_all_metrics() }),
        None => Err(ContractError::NotFound { key }),
    }
}

/// Returns the price of `denom` in `base_denom` and the time it was
/// measured. The query takes no parameters: `params` must be `None`.
pub fn get_price(store: &Store, denom: String, base_denom: String, params: Option<Vec<u8>>) -> (r: Result<
    PriceResponse,
    ContractError,
>)
    requires
        store.wf(),
    ensures
        price_result_view(r) == store@.price(denom@, base_denom@, params is Some),
{
    if params.is_some() {
        return Err(ContractError::InvalidRequest {  });
    }
    let key = get_price_key(denom.as_str(), base_denom.as_str());
    let price = match store.price(key.as_str()) {
        Some(price) => price,
        None => {
            return Err(ContractError::NotFound { key });
        },
    };
    if !same_text(price.base_denom.as_str(), base_denom.as_str()) {
        return Err(
            ContractError::InconsistentPriceRecord { denom, base_denom, expected: price.base_denom.clone() },
        );
    }
    Ok(PriceResponse { exchange_rate: price.exchange_rate, last_updated: price.last_updated })
}

} // verus!
