//! The entry points: creating the oracle, changing it and reading it.

use vstd::prelude::*;
use crate::error::ContractError;
use crate::execute::{answers, is_predicate, post_metric, post_refusal, post_state, posted_metric, price_of};
use crate::msg::{ExecuteMsg, InstantiateMsg, QueryMsg, QueryResponse, Response};
use crate::query::{
    get_all_latest_metrics, get_config, get_historical_metrics, get_latest_metric, get_price,
};
use crate::state::{metric_views, Config, MetricView};
use crate::store::{lists_in_key_order, Store, OracleState};

verus! {

/// Creates the oracle: a store that knows its admin and holds nothing else.
pub fn instantiate(msg: InstantiateMsg) -> (r: (Store, Response))
    ensures
        r.0.wf(),
        r.0@ == OracleState::empty(msg.admin_address@),
        r.1.reports("instantiate"@),
{
    let config = Config { admin_address: msg.admin_address };
    (Store::new(config), Response::action("instantiate"))
}

/// The metric that a request to post carries.
pub open spec fn metric_of(msg: ExecuteMsg) -> MetricView {
    match msg {
        ExecuteMsg::PostMetric { key, value, metric_type, metadata } => posted_metric(
            key@,
            value@,
            metric_type@,
            metadata,
        ),
    }
}

/// Carries out a request of `sender` to change the oracle.
pub fn execute<F: Fn(&str) -> bool>(store: &mut Store, validator: F, sender: &str, msg: ExecuteMsg) -> (r: Result<
    Response,
    ContractError,
>)
    requires
        old(store).wf(),
        is_predicate(validator),
    ensures
        final(store).wf(),
        final(store)@ == post_state(old(store)@, sender@, metric_of(msg), price_of(validator, metric_of(msg))),
        answers(r, post_refusal(old(store)@, sender@, price_of(validator, metric_of(msg))), "post_metric"@),
{
    match msg {
        ExecuteMsg::PostMetric { key, value, metric_type, metadata } => post_metric(
            store,
            validator,
            sender,
            key,
            value,
            metric_type,
            metadata,
        ),
    }
}

/// Whether `r` answers the query `msg` on `state`.
pub open spec fn answers_query(r: Result<QueryResponse, ContractError>, state: OracleState, msg: QueryMsg) -> bool {
    match msg {
        QueryMsg::Config {  } => r matches Ok(QueryResponse::Config(c)) && c@ == state.admin,
        QueryMsg::LatestMetric { key } => match state.latest_metric(key@) {
            Ok(metric) => r matches Ok(QueryResponse::Metric(m)) && m@ == metric,
            Err(e) => r matches Err(f) && f@ == e,
        },
        QueryMsg::AllLatestMetrics {  } => r matches Ok(QueryResponse::Metrics(m)) && lists_in_key_order(
            metric_views(m.metrics@),
            state.latest,
        ),
        QueryMsg::HistoricalMetrics { key } => match state.historical_metrics(key@) {
            Ok(entries) => r matches Ok(QueryResponse::Metrics(m)) && metric_views(m.metrics@) == entries,
            Err(e) => r matches Err(f) && f@ == e,
        },
        QueryMsg::Price { denom, base_denom, params } => match state.price(denom@, base_denom@, params is Some) {
            Ok(price) => r matches Ok(QueryResponse::Price(p)) && p == price,
            Err(e) => r matches Err(f) && f@ == e,
        },
    }
}

/// Answers a query. The store is not changed.
pub fn query(store: &Store, msg: QueryMsg) -> (r: Result<QueryResponse, ContractError>)
    requires
        store.wf(),
    ensures
        answers_query(r, store@, msg),
{
    match msg {
        QueryMsg::Config {  } => match get_config(store) {
            Ok(config) => Ok(QueryResponse::Config(config)),
            Err(e) => Err(e),
        },
        QueryMsg::LatestMetric { key } => match get_latest_metric(store, key) {
            Ok(metric) => Ok(QueryResponse::Metric(metric)),
            Err(e) => Err(e),
        },
        QueryMsg::AllLatestMetrics {  } => match get_all_latest_metrics(store) {
            Ok(metrics) => Ok(QueryResponse::Metrics(metrics)),
            Err(e) => Err(e),
        },
        QueryMsg::HistoricalMetrics { key } => match get_historical_metrics(store, key) {
            Ok(metrics) => Ok(QueryResponse::Metrics(metrics)),
            Err(e) => Err(e),
        },
        QueryMsg::Price { denom, base_denom, params } => match get_price(store, denom, base_denom, params) {
            Ok(price) => Ok(QueryResponse::Price(price)),
            Err(e) => Err(e),
        },
    }
}

} // verus!
