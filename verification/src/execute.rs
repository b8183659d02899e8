//! Posting a metric: who may post, what a redemption rate says about a
//! price, and how the tables change.
//!
//! A post either fails and changes nothing, or succeeds and changes the
//! latest metric, the history and the prices together.

use vstd::prelude::*;
use crate::error::{ContractError, ErrorView};
use crate::msg::Response;
use crate::outside::{decimal_atomics, json_string_field, parse_decimal_atomics, read_json_string_field};
use crate::state::{
    Metadata, Metric, MetricType, MetricView, Price, PriceView, RedemptionRateAttributes,
    RedemptionRateAttributesView,
};
use crate::store::{Store, OracleState};
use crate::text::same_text;

verus! {

/// What is asked of a denom validator: it can be called on every text, and
/// its answer depends on the text alone.
pub open spec fn is_predicate<F: Fn(&str) -> bool>(validator: F) -> bool {
    &&& forall|s: &str| #[trigger] call_requires(validator, (s,))
    &&& forall|s: &str, t: &str, a: bool, b: bool|
        s@ == t@ && #[trigger] call_ensures(validator, (s,), a) && #[trigger] call_ensures(validator, (t,), b) ==> a
            == b
}

/// Whether the validator answers `true` on `text`.
pub open spec fn accepts<F: Fn(&str) -> bool>(validator: F, text: Seq<char>) -> bool {
    exists|s: &str| s@ == text && #[trigger] call_ensures(validator, (s,), true)
}

/// The view of optional attributes.
pub open spec fn attributes_view(attributes: Option<RedemptionRateAttributes>) -> Option<
    RedemptionRateAttributesView,
> {
    match attributes {
        Some(a) => Some(a@),
        None => None,
    }
}

/// The attributes of a redemption rate that `text` holds: a JSON object with
/// a string under `denom` and a string under `base_denom`.
pub open spec fn parsed_attributes(text: Seq<char>) -> Option<RedemptionRateAttributesView> {
    match (json_string_field(text, "denom"@), json_string_field(text, "base_denom"@)) {
        (Some(denom), Some(base_denom)) => Some(RedemptionRateAttributesView { denom, base_denom }),
        _ => None,
    }
}

/// Reads the attributes of a redemption rate from their serialized form.
pub fn parse_attributes(text: &str) -> (r: Option<RedemptionRateAttributes>)
    ensures
        attributes_view(r) == parsed_attributes(text@),
{
    match read_json_string_field(text, "denom") {
        Some(denom) => match read_json_string_field(text, "base_denom") {
            Some(base_denom) => Some(RedemptionRateAttributes { denom, base_denom }),
            None => None,
        },
        None => None,
    }
}

/// What a metric says about a price, given what its attributes parsed to,
/// what the validator said of the two denoms and what its value parsed to.
///
/// A metric of another category says nothing. A redemption rate needs
/// attributes, then a valid denom, then a valid base denom, then a decimal
/// value, and fails on the first of these that is missing. What comes after
/// the first failure is not looked at.
pub open spec fn derived_price(
    metric: MetricView,
    attributes: Option<RedemptionRateAttributesView>,
    denom_ok: bool,
    base_denom_ok: bool,
    rate: Option<u128>,
) -> Result<Option<PriceView>, ErrorView> {
    if MetricType::parse(metric.metric_type) is None {
        Ok(None)
    } else if attributes is None {
        Err(ErrorView::InvalidMetricMetadataAttributes { metric_type: metric.metric_type })
    } else if !denom_ok {
        Err(ErrorView::InvalidDenom { denom: attributes->0.denom })
    } else if !base_denom_ok {
        Err(ErrorView::InvalidDenom { denom: attributes->0.base_denom })
    } else if rate is None {
        Err(ErrorView::MalformedValue { value: metric.value })
    } else {
        Ok(
            Some(
                PriceView {
                    denom: attributes->0.denom,
                    base_denom: attributes->0.base_denom,
                    exchange_rate: rate->0,
                    last_updated: metric.time(),
                },
            ),
        )
    }
}

/// The view of a derivation's result.
pub open spec fn derivation_view(r: Result<Option<Price>, ContractError>) -> Result<Option<PriceView>, ErrorView> {
    match r {
        Ok(Some(p)) => Ok(Some(p@)),
        Ok(None) => Ok(None),
        Err(e) => Err(e@),
    }
}

/// Derives the price from a metric and from the results of reading its
/// attributes, validating its denoms and parsing its value.
pub fn price_from_parts(
    metric: &Metric,
    attributes: Option<RedemptionRateAttributes>,
    denom_ok: bool,
    base_denom_ok: bool,
    rate: Option<u128>,
) -> (r: Result<Option<Price>, ContractError>)
    ensures
        derivation_view(r) == derived_price(metric@, attributes_view(attributes), denom_ok, base_denom_ok, rate),
{
    match MetricType::from_str(metric.metric_type.as_str()) {
        None => Ok(None),
        Some(MetricType::RedemptionRate) => {
            let attributes = match attributes {
                Some(attributes) => attributes,
                None => {
                    return Err(
                        ContractError::InvalidMetricMetadataAttributes { metric_type: metric.metric_type.clone() },
                    );
                },
            };
            if !denom_ok {
                return Err(ContractError::InvalidDenom { denom: attributes.denom });
            }
            if !base_denom_ok {
                return Err(ContractError::InvalidDenom { denom: attributes.base_denom });
            }
            match rate {
                None => Err(ContractError::MalformedValue { value: metric.value.clone() }),
                Some(exchange_rate) => Ok(
                    Some(
                        Price {
                            denom: attributes.denom,
                            base_denom: attributes.base_denom,
                            exchange_rate,
                            last_updated: metric.metadata.update_time,
                        },
                    ),
                ),
            }
        },
    }
}

/// What a metric says about a price under a given validator.
pub open spec fn price_of<F: Fn(&str) -> bool>(validator: F, metric: MetricView) -> Result<
    Option<PriceView>,
    ErrorView,
> {
    let attributes = match metric.metadata.attributes {
        Some(text) => parsed_attributes(text),
        None => None,
    };
    derived_price(
        metric,
        attributes,
        attributes is Some && accepts(validator, attributes->0.denom),
        attributes is Some && accepts(validator, attributes->0.base_denom),
        decimal_atomics(metric.value),
    )
}

/// Asks the validator about one denom.
pub fn is_valid_denom<F: Fn(&str) -> bool>(validator: &F, denom: &str) -> (r: bool)
    requires
        is_predicate(*validator),
    ensures
        r == accepts(*validator, denom@),
{
    let r = validator(denom);
    assert(call_ensures(*validator, (denom,), r));
    r
}

/// Derives the price that a metric gives, if its category is one that gives
/// a price. The attributes are read, the denoms validated and the value
/// parsed only as far as the derivation gets.
pub fn derive_price<F: Fn(&str) -> bool>(metric: &Metric, validator: F) -> (r: Result<Option<Price>, ContractError>)
    requires
        is_predicate(validator),
    ensures
        derivation_view(r) == price_of(validator, metric@),
{
    if MetricType::from_str(metric.metric_type.as_str()).is_none() {
        return price_from_parts(metric, None, false, false, None);
    }
    let attributes = match &metric.metadata.attributes {
        Some(text) => parse_attributes(text.as_str()),
        None => None,
    };
    let denom_ok = match &attributes {
        Some(a) => is_valid_denom(&validator, a.denom.as_str()),
        None => false,
    };
    let base_denom_ok = match &attributes {
        Some(a) => denom_ok && is_valid_denom(&validator, a.base_denom.as_str()),
        None => false,
    };
    let rate = if denom_ok && base_denom_ok {
        parse_decimal_atomics(metric.value.as_str())
    } else {
        None
    };
    price_from_parts(metric, attributes, denom_ok, base_denom_ok, rate)
}

/// Why a post is turned down, if it is: the sender is not the admin, or the
/// derivation of the price failed.
pub open spec fn post_refusal(
    state: OracleState,
    sender: Seq<char>,
    derivation: Result<Option<PriceView>, ErrorView>,
) -> Option<ErrorView> {
    if sender != state.admin {
        Some(ErrorView::Unauthorized)
    } else {
        match derivation {
            Err(e) => Some(e),
            Ok(_) => None,
        }
    }
}

/// The state after a post: unchanged where the post is turned down, else
/// with the metric and its price taken in.
pub open spec fn post_state(
    state: OracleState,
    sender: Seq<char>,
    metric: MetricView,
    derivation: Result<Option<PriceView>, ErrorView>,
) -> OracleState {
    match post_refusal(state, sender, derivation) {
        Some(_) => state,
        None => state.ingest(metric, derivation->Ok_0),
    }
}

/// Whether `r` is the result of a call that `refusal` describes: the named
/// action reported where nothing refuses, else the refusing error.
pub open spec fn answers(r: Result<Response, ContractError>, refusal: Option<ErrorView>, action: Seq<char>) -> bool {
    match refusal {
        None => r is Ok && r->Ok_0.reports(action),
        Some(e) => r is Err && r->Err_0@ == e,
    }
}

/// Applies a post whose price derivation has been made already.
pub fn apply_post(
    store: &mut Store,
    sender: &str,
    metric: Metric,
    derivation: Result<Option<Price>, ContractError>,
) -> (r: Result<Response, ContractError>)
    requires
        old(store).wf(),
    ensures
        final(store).wf(),
        final(store)@ == post_state(old(store)@, sender@, metric@, derivation_view(derivation)),
        answers(r, post_refusal(old(store)@, sender@, derivation_view(derivation)), "post_metric"@),
{
    if !same_text(sender, store.config().admin_address.as_str()) {
        return Err(ContractError::Unauthorized {  });
    }
    let price = match derivation {
        Ok(price) => price,
        Err(e) => {
            return Err(e);
        },
    };
    store.promote(metric.clone());
    store.record(metric);
    match price {
        Some(p) => {
            store.quote(p);
        },
        None => {},
    }
    Ok(Response::action("post_metric"))
}

/// The metric that a post carries.
pub open spec fn posted_metric(
    key: Seq<char>,
    value: Seq<char>,
    metric_type: Seq<char>,
    metadata: Metadata,
) -> MetricView {
    MetricView { key, value, metric_type, metadata: metadata@ }
}

/// Stores a metric that `sender` posts.
///
/// Only the admin may post. The metric becomes the latest of its key if it is
/// fresher than the one stored, and is offered to the history of its key. A
/// redemption rate also gives a price, which becomes the price of its denom
/// pair if it is fresher than the one stored. A metric or a price that is not
/// fresher is dropped in silence: staleness is no error. If the price cannot
/// be derived the post fails as a whole: nothing is stored.
pub fn post_metric<F: Fn(&str) -> bool>(
    store: &mut Store,
    validator: F,
    sender: &str,
    key: String,
    value: String,
    metric_type: String,
    metadata: Metadata,
) -> (r: Result<Response, ContractError>)
    requires
        old(store).wf(),
        is_predicate(validator),
    ensures
        final(store).wf(),
        final(store)@ == post_state(
            old(store)@,
            sender@,
            posted_metric(key@, value@, metric_type@, metadata),
            price_of(validator, posted_metric(key@, value@, metric_type@, metadata)),
        ),
        answers(
            r,
            post_refusal(
                old(store)@,
                sender@,
                price_of(validator, posted_metric(key@, value@, metric_type@, metadata)),
            ),
            "post_metric"@,
        ),
{
    let new_metric = Metric { key, value, metric_type, metadata };
    // An unauthorized post is turned down before anything is parsed.
    if !same_text(sender, store.config().admin_address.as_str()) {
        return Err(ContractError::Unauthorized {  });
    }
    let derivation = derive_price(&new_metric, validator);
    apply_post(store, sender, new_metric, derivation)
}

} // verus!
