//! The geolocation collaborator: a pure lookup from a client address to an
//! optional country code. Only a few documentation ranges are recognised;
//! every other address maps to nothing.

use vstd::prelude::*;

use crate::strutil::{has_lit_at, spec_has_at};

verus! {

/// The country code derived from an address: fixed codes for the three
/// documentation ranges, nothing otherwise.
pub open spec fn spec_country_of(ip: Seq<char>) -> Option<Seq<char>> {
    if spec_has_at(ip, "192.0.2."@, 0) {
        Option::Some("US"@)
    } else if spec_has_at(ip, "198.51.100."@, 0) {
        Option::Some("UK"@)
    } else if spec_has_at(ip, "203.0.113."@, 0) {
        Option::Some("JP"@)
    } else {
        Option::None
    }
}

/// Extract a country from an address. Pure and side-effect-free.
pub fn ip_to_country(ip_address: &str) -> (r: Option<String>)
    ensures
        spec_opt_country(r) == spec_country_of(ip_address@),
{
    if has_lit_at(ip_address, "192.0.2.", 0) {
        Some(String::from_str("US"))
    } else if has_lit_at(ip_address, "198.51.100.", 0) {
        Some(String::from_str("UK"))
    } else if has_lit_at(ip_address, "203.0.113.", 0) {
        Some(String::from_str("JP"))
    } else {
        None
    }
}

/// View of an optional country code.
pub open spec fn spec_opt_country(o: Option<String>) -> Option<Seq<char>> {
    match o {
        Option::Some(s) => Option::Some(s@),
        Option::None => Option::None,
    }
}

} // verus!
