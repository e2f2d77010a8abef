//! From the answer of a balance service to a balance.

use vstd::prelude::*;
use crate::error::{failure_view, Failure, ScanError};
use crate::json::{get_value_by_path, value_by_path, Json};
use crate::text::{replace, replace_spec, same_text};

verus! {

/// The number of satoshis that make one bitcoin.
pub const SATS_PER_BTC: u64 = 100_000_000;

/// A balance that the service counts in satoshis, given in the unit
/// `unit`: whole bitcoins for `btc`, what is left of a bitcoin dropped, and
/// the balance itself for `sat`. No other unit is known.
pub open spec fn convert_spec(balance: u64, unit: Seq<char>) -> Result<u64, Failure> {
    if unit == "btc"@ {
        Ok((balance / SATS_PER_BTC) as u64)
    } else if unit == "sat"@ {
        Ok(balance)
    } else {
        Err(Failure::InvalidUnit)
    }
}

/// Gives a balance in the unit asked for.
pub fn convert(balance: u64, unit: &str) -> (r: Result<u64, ScanError>)
    ensures
        failure_view(r) == convert_spec(balance, unit@),
{
    if same_text(unit, "btc") {
        Ok(balance / SATS_PER_BTC)
    } else if same_text(unit, "sat") {
        Ok(balance)
    } else {
        Err(ScanError::InvalidUnit)
    }
}

/// The balance that the answer with the members `map` holds at `path`,
/// in the unit `unit`. The path is followed first: a unit that is not
/// known shows only where the answer holds a balance.
pub open spec fn address_sats(map: Vec<(String, Json)>, path: Seq<char>, unit: Seq<char>) -> Result<
    u64,
    Failure,
> {
    match value_by_path(map, path) {
        Ok(balance) => convert_spec(balance, unit),
        Err(e) => Err(e),
    }
}

/// Reads the balance of an address from the answer that the service gave
/// for it.
pub fn get_address_sats(map: &Vec<(String, Json)>, path: &str, unit: &str) -> (r: Result<
    u64,
    ScanError,
>)
    ensures
        failure_view(r) == address_sats(*map, path@, unit@),
{
    match get_value_by_path(map, path) {
        Ok(balance) => convert(balance, unit),
        Err(e) => Err(e),
    }
}

/// What stands for the address in the template of a service's URL.
pub open spec fn placeholder() -> Seq<char> {
    "{addr}"@
}

/// The URL to ask for the balance of `addr`: the template with the address
/// in every place where the placeholder stands.
pub fn address_url(template: &str, addr: &str) -> (r: String)
    ensures
        r@ == replace_spec(template@, placeholder(), addr@),
{
    replace(template, "{addr}", addr)
}

} // verus!
