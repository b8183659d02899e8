//! The data that the oracle keeps: metrics, their bounded history, prices and
//! the configuration.

use vstd::prelude::*;
pub use crate::history::MetricHistory;
use crate::text::same_text;

verus! {

/// The configuration: the one address that may post metrics.
#[derive(Debug, PartialEq)]
pub struct Config {
    pub admin_address: String,
}

impl View for Config {
    type V = Seq<char>;

    /// The admin address as text.
    open spec fn view(&self) -> Seq<char> {
        self.admin_address@
    }
}

impl Clone for Config {
    fn clone(&self) -> (r: Self)
        ensures
            r@ == self@,
    {
        Config { admin_address: self.admin_address.clone() }
    }
}

/// The categories of metric that get a treatment of their own.
#[derive(Clone, Copy, Debug, PartialEq, Eq)]
pub enum MetricType {
    RedemptionRate,
}

/// The text that names the redemption-rate category.
pub open spec fn redemption_rate_name() -> Seq<char> {
    "redemption_rate"@
}

impl MetricType {
    /// The category that `name` spells, if it spells one; the match is exact.
    pub open spec fn parse(name: Seq<char>) -> Option<MetricType> {
        if name == redemption_rate_name() {
            Some(MetricType::RedemptionRate)
        } else {
            None
        }
    }

    /// Reads a category from its name. A name that spells no category gives
    /// `None`; such a metric is stored like any other.
    pub fn from_str(name: &str) -> (r: Option<MetricType>)
        ensures
            r == MetricType::parse(name@),
    {
        if same_text(name, "redemption_rate") {
            Some(MetricType::RedemptionRate)
        } else {
            None
        }
    }
}

/// When and where a metric was measured, with optional category-specific
/// attributes in serialized form.
#[derive(Debug, PartialEq)]
pub struct Metadata {
    pub update_time: u64,
    pub block_height: u64,
    pub attributes: Option<String>,
}

/// A `Metadata` as a value, with text in place of the string.
pub struct MetadataView {
    pub update_time: u64,
    pub block_height: u64,
    pub attributes: Option<Seq<char>>,
}

impl View for Metadata {
    type V = MetadataView;

    open spec fn view(&self) -> MetadataView {
        MetadataView {
            update_time: self.update_time,
            block_height: self.block_height,
            attributes: match self.attributes {
                Some(a) => Some(a@),
                None => None,
            },
        }
    }
}

impl Clone for Metadata {
    fn clone(&self) -> (r: Self)
        ensures
            r@ == self@,
    {
        Metadata {
            update_time: self.update_time,
            block_height: self.block_height,
            attributes: match &self.attributes {
                Some(a) => Some(a.clone()),
                None => None,
            },
        }
    }
}

/// One measurement: a key, a value, a category and its metadata.
#[derive(Debug, PartialEq)]
pub struct Metric {
    pub key: String,
    pub value: String,
    pub metric_type: String,
    pub metadata: Metadata,
}

/// A `Metric` as a value, with texts in place of strings.
pub struct MetricView {
    pub key: Seq<char>,
    pub value: Seq<char>,
    pub metric_type: Seq<char>,
    pub metadata: MetadataView,
}

impl MetricView {
    /// The time by which metrics of one key are ordered.
    pub open spec fn time(self) -> u64 {
        self.metadata.update_time
    }
}

impl View for Metric {
    type V = MetricView;

    open spec fn view(&self) -> MetricView {
        MetricView {
            key: self.key@,
            value: self.value@,
            metric_type: self.metric_type@,
            metadata: self.metadata@,
        }
    }
}

impl Clone for Metric {
    fn clone(&self) -> (r: Self)
        ensures
            r@ == self@,
    {
        Metric {
            key: self.key.clone(),
            value: self.value.clone(),
            metric_type: self.metric_type.clone(),
            metadata: self.metadata.clone(),
        }
    }
}

/// The views of a sequence of metrics.
pub open spec fn metric_views(metrics: Seq<Metric>) -> Seq<MetricView> {
    metrics.map_values(|m: Metric| m@)
}

/// The attributes that a redemption-rate metric carries: the denom of the
/// staked token and the denom of the token it redeems to.
#[derive(Debug, PartialEq)]
pub struct RedemptionRateAttributes {
    pub denom: String,
    pub base_denom: String,
}

/// `RedemptionRateAttributes` as a value, with texts in place of strings.
pub struct RedemptionRateAttributesView {
    pub denom: Seq<char>,
    pub base_denom: Seq<char>,
}

impl View for RedemptionRateAttributes {
    type V = RedemptionRateAttributesView;

    open spec fn view(&self) -> RedemptionRateAttributesView {
        RedemptionRateAttributesView { denom: self.denom@, base_denom: self.base_denom@ }
    }
}

impl Clone for RedemptionRateAttributes {
    fn clone(&self) -> (r: Self)
        ensures
            r@ == self@,
    {
        RedemptionRateAttributes { denom: self.denom.clone(), base_denom: self.base_denom.clone() }
    }
}

/// The exchange rate of `denom` in `base_denom` and the time it was measured.
/// The rate is a fixed-point decimal with 18 fractional digits, held as its
/// whole number of 10^-18 units.
#[derive(Debug, PartialEq)]
pub struct Price {
    pub denom: String,
    pub base_denom: String,
    pub exchange_rate: u128,
    pub last_updated: u64,
}

/// A `Price` as a value, with texts in place of strings.
pub struct PriceView {
    pub denom: Seq<char>,
    pub base_denom: Seq<char>,
    pub exchange_rate: u128,
    pub last_updated: u64,
}

impl PriceView {
    /// The key under which this price is filed.
    pub open spec fn key(self) -> Seq<char> {
        price_key(self.denom, self.base_denom)
    }
}

impl View for Price {
    type V = PriceView;

    open spec fn view(&self) -> PriceView {
        PriceView {
            denom: self.denom@,
            base_denom: self.base_denom@,
            exchange_rate: self.exchange_rate,
            last_updated: self.last_updated,
        }
    }
}

impl Clone for Price {
    fn clone(&self) -> (r: Self)
        ensures
            r@ == self@,
    {
        Price {
            denom: self.denom.clone(),
            base_denom: self.base_denom.clone(),
            exchange_rate: self.exchange_rate,
            last_updated: self.last_updated,
        }
    }
}

/// The key of the price table for a pair of denoms: the two joined by `-`.
pub open spec fn price_key(denom: Seq<char>, base_denom: Seq<char>) -> Seq<char> {
    denom + seq!['-'] + base_denom
}

/// Builds the key under which the price of `denom` in `base_denom` is filed.
pub fn get_price_key(denom: &str, base_denom: &str) -> (key: String)
    ensures
        key@ == price_key(denom@, base_denom@),
{
    proof {
        reveal_strlit("-");
    }
    let key = String::from_str(denom).concat("-").concat(base_denom);
    assert("-"@ =~= seq!['-']);
    key
}

} // verus!
