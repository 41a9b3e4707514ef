//! Fixed-point prices. A price is handled as its atomic count: the decimal
//! value scaled by 10^18, as an unsigned 128-bit integer. The one operation
//! that only the host's numeric library provides is parsing a decimal
//! string, which stands behind a trusted wrapper.

use std::str::FromStr;
use vstd::prelude::*;

verus! {

/// The number of atomics in one whole unit: a price of `1` is
/// `10^18` atomics.
pub const DECIMAL_FRACTIONAL: u128 = 1_000_000_000_000_000_000;

/// What parsing a decimal string yields: the atomic count of the parsed
/// value, or nothing when the string is not a decimal in range. Its value
/// is fixed by the parsing rules of the host's `Decimal` type and depends
/// on the characters alone.
pub uninterp spec fn decimal_from_str(s: Seq<char>) -> Option<u128>;

/// Relies on `cosmwasm_std::Decimal::from_str`: parses a decimal string
/// with up to eighteen fractional digits into its atomic count; the result
/// depends on the characters alone.
#[verifier::external_body]
pub fn parse_decimal_atomics(s: &str) -> (r: Option<u128>)
    ensures
        r == decimal_from_str(s@),
{
    match cosmwasm_std::Decimal::from_str(s) {
        Ok(d) => Some(d.atomics().u128()),
        Err(_) => None,
    }
}

} // verus!
