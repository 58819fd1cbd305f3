use vstd::prelude::*;
use crate::keys::{Address, Coords};
use crate::text::push_char;

verus! {

/// A provider request: the endpoint and its query parameters, in order.
pub struct ProviderRequest {
    pub url: String,
    pub params: Vec<(String, String)>,
}

pub open spec fn geocode_url() -> Seq<char> {
    "https://geocode.search.hereapi.com/v1/geocode"@
}

pub open spec fn reverse_geocode_url() -> Seq<char> {
    "https://geocode.search.hereapi.com/v1/revgeocode"@
}

/// The `at` parameter of a reverse lookup: latitude, a comma, longitude.
pub open spec fn at_param(c: Coords) -> Seq<char> {
    c.lat@ + seq![','] + c.lng@
}

/// The forward lookup of an address: `apiKey` and `q`.
pub fn geocode_request(api_key: &String, address: &Address) -> (r: ProviderRequest)
    ensures
        r.url@ == geocode_url(),
        r.params@.len() == 2,
        r.params@[0].0@ == "apiKey"@,
        r.params@[0].1@ == api_key@,
        r.params@[1].0@ == "q"@,
        r.params@[1].1@ == address.query@,
{
    let params = vec![
        (String::from_str("apiKey"), api_key.clone()),
        (String::from_str("q"), address.query.clone()),
    ];
    ProviderRequest { url: String::from_str("https://geocode.search.hereapi.com/v1/geocode"), params }
}

/// The reverse lookup of a coordinate pair: `apiKey` and `at`.
pub fn reverse_geocode_request(api_key: &String, coords: &Coords) -> (r: ProviderRequest)
    ensures
        r.url@ == reverse_geocode_url(),
        r.params@.len() == 2,
        r.params@[0].0@ == "apiKey"@,
        r.params@[0].1@ == api_key@,
        r.params@[1].0@ == "at"@,
        r.params@[1].1@ == at_param(*coords),
{
    let mut at = coords.lat.clone();
    push_char(&mut at, ',');
    let at = at.concat(coords.lng.as_str());
    assert(at@ =~= at_param(*coords));
    let params = vec![(String::from_str("apiKey"), api_key.clone()), (String::from_str("at"), at)];
    ProviderRequest {
        url: String::from_str("https://geocode.search.hereapi.com/v1/revgeocode"),
        params,
    }
}

} // verus!
