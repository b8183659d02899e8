//! The ways in which a call on the oracle fails.

use vstd::prelude::*;

verus! {

/// Why a call was refused.
#[derive(Clone, Debug, PartialEq)]
pub enum ContractError {
    /// The caller is not the admin.
    Unauthorized {},
    /// A metric of a category that needs attributes has none, or has
    /// attributes that do not hold what the category asks for.
    InvalidMetricMetadataAttributes { metric_type: String },
    /// The denom validator turned this denom down.
    InvalidDenom { denom: String },
    /// The value of a redemption rate is no decimal number.
    MalformedValue { value: String },
    /// Nothing is stored under the key that a query asked for.
    NotFound { key: String },
    /// A price query came with parameters; it takes none.
    InvalidRequest {},
    /// The price filed for a denom pair is that of another base denom.
    InconsistentPriceRecord { denom: String, base_denom: String, expected: String },
}

/// A `ContractError` as a value, with texts in place of strings.
pub enum ErrorView {
    Unauthorized,
    InvalidMetricMetadataAttributes { metric_type: Seq<char> },
    InvalidDenom { denom: Seq<char> },
    MalformedValue { value: Seq<char> },
    NotFound { key: Seq<char> },
    InvalidRequest,
    InconsistentPriceRecord { denom: Seq<char>, base_denom: Seq<char>, expected: Seq<char> },
}

impl View for ContractError {
    type V = ErrorView;

    open spec fn view(&self) -> ErrorView {
        match self {
            ContractError::Unauthorized {  } => ErrorView::Unauthorized,
            ContractError::InvalidMetricMetadataAttributes { metric_type } => ErrorView::InvalidMetricMetadataAttributes {
                metric_type: metric_type@,
            },
            ContractError::InvalidDenom { denom } => ErrorView::InvalidDenom { denom: denom@ },
            ContractError::MalformedValue { value } => ErrorView::MalformedValue { value: value@ },
            ContractError::NotFound { key } => ErrorView::NotFound { key: key@ },
            ContractError::InvalidRequest {  } => ErrorView::InvalidRequest,
            ContractError::InconsistentPriceRecord { denom, base_denom, expected } => ErrorView::InconsistentPriceRecord {
                denom: denom@,
                base_denom: base_denom@,
                expected: expected@,
            },
        }
    }
}

} // verus!
