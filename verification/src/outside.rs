//! The calls into outside crates: JSON reading and decimal parsing.
//!
//! Nothing in this module is proved. Each function states what its outside
//! call is taken to do; the rest of the library is verified against that.

use std::str::FromStr;
use vstd::prelude::*;

verus! {

/// The text of an optional string.
pub open spec fn text_of(s: Option<String>) -> Option<Seq<char>> {
    match s {
        Some(s) => Some(s@),
        None => None,
    }
}

/// The string that the JSON document `text` holds under `field`, where `text`
/// is a JSON object that has a member `field` whose value is a string.
pub uninterp spec fn json_string_field(text: Seq<char>, field: Seq<char>) -> Option<Seq<char>>;

/// Reads `text` with `serde_json::from_str` as a `serde_json::Value`, looks
/// `field` up with `Value::get` and takes the string out with
/// `Value::as_str`. It is taken on trust that the result depends on the two
/// texts alone. `None` covers text that is no JSON, JSON that is no object,
/// an object without that member, and a member that is no string.
#[verifier::external_body]
pub(crate) fn read_json_string_field(text: &str, field: &str) -> (r: Option<String>)
    ensures
        text_of(r) == json_string_field(text@, field@),
{
    let document = serde_json::from_str::<serde_json::Value>(text).ok()?;
    Some(document.get(field)?.as_str()?.to_string())
}

/// The number of 10^-18 units in the decimal number that `text` spells, where
/// it spells one that the 128-bit fixed-point type can hold.
pub uninterp spec fn decimal_atomics(text: Seq<char>) -> Option<u128>;

/// Parses `text` with `cosmwasm_std::Decimal::from_str` and hands out the
/// number's atomic units (`Decimal::atomics`, `Uint128::u128`). It is taken on
/// trust that the result depends on the text alone. `None` stands for every
/// error of the parser.
#[verifier::external_body]
pub(crate) fn parse_decimal_atomics(text: &str) -> (r: Option<u128>)
    ensures
        r == decimal_atomics(text@),
{
    match cosmwasm_std::Decimal::from_str(text) {
        Ok(decimal) => Some(decimal.atomics().u128()),
        Err(_) => None,
    }
}

} // verus!
