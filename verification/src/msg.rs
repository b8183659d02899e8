//! The requests that the oracle takes and the answers that it gives.

use vstd::prelude::*;
use crate::state::{Config, Metadata, Metric};

verus! {

/// Creates the oracle with its admin.
#[derive(Clone, Debug, PartialEq)]
pub struct InstantiateMsg {
    pub admin_address: String,
}

/// The requests that change the oracle.
#[derive(Clone, Debug, PartialEq)]
pub enum ExecuteMsg {
    PostMetric { key: String, value: String, metric_type: String, metadata: Metadata },
}

/// The requests that read the oracle.
#[derive(Clone, Debug, PartialEq)]
pub enum QueryMsg {
    /// The configuration.
    Config {},
    /// The most recent metric of a key.
    LatestMetric { key: String },
    /// The most recent metric of every key.
    AllLatestMetrics {},
    /// The retained history of a key.
    HistoricalMetrics { key: String },
    /// The price of `denom` in `base_denom`; `params` must be absent.
    Price { denom: String, base_denom: String, params: Option<Vec<u8>> },
}

/// A list of metrics.
#[derive(Clone, Debug, PartialEq)]
pub struct Metrics {
    pub metrics: Vec<Metric>,
}

/// A price and the time it was measured. The rate counts 10^-18 units.
#[derive(Clone, Debug, PartialEq)]
pub struct PriceResponse {
    pub exchange_rate: u128,
    pub last_updated: u64,
}

/// A key and a value that a successful call reports.
#[derive(Clone, Debug, PartialEq)]
pub struct Attribute {
    pub key: String,
    pub value: String,
}

/// What a successful change reports.
#[derive(Clone, Debug, PartialEq)]
pub struct Response {
    pub attributes: Vec<Attribute>,
}

impl Response {
    /// The response holds the one attribute `action` with the value `name`.
    pub open spec fn reports(&self, name: Seq<char>) -> bool {
        &&& self.attributes@.len() == 1
        &&& self.attributes@[0].key@ == "action"@
        &&& self.attributes@[0].value@ == name
    }

    /// The response to the action called `name`.
    pub fn action(name: &str) -> (r: Response)
        ensures
            r.reports(name@),
    {
        let mut attributes: Vec<Attribute> = Vec::new();
        attributes.push(Attribute { key: String::from_str("action"), value: String::from_str(name) });
        Response { attributes }
    }
}

/// The answer to a query, by the kind of query.
#[derive(Clone, Debug, PartialEq)]
pub enum QueryResponse {
    Config(Config),
    Metric(Metric),
    Metrics(Metrics),
    Price(PriceResponse),
}

} // verus!
