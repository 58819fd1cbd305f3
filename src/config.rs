use vstd::prelude::*;
use crate::keys::{Address, Coords, Query};

verus! {

/// Deployment settings, fixed for the life of the process.
#[derive(Clone)]
pub struct Config {
    pub port: String,
    pub redis_connection_url: String,
    pub prefix: String,
    pub here_api_key: String,
    pub api_key: String,
    pub log_level: String,
}

impl Config {
    /// A bearer token is accepted when it equals the configured API key.
    pub fn accepts_token(&self, token: &String) -> (r: bool)
        ensures
            r == (token@ == self.api_key@),
    {
        *token == self.api_key
    }
}

/// The parameters of a forward lookup request.
pub struct GeocodeReqQueryParams {
    pub address: String,
}

impl GeocodeReqQueryParams {
    pub fn to_address(&self) -> (r: Address)
        ensures
            r.query@ == self.address@,
    {
        Address::new(&self.address)
    }
}

/// The query of a reverse lookup, from coordinates in units of 1e-7 degree.
pub fn coordinates_query(lat_e7: i64, lng_e7: i64) -> (r: Query)
    ensures
        r matches Query::Coordinates(c)
            && c.lat@ == crate::keys::fixed7_text(lat_e7 as int)
            && c.lng@ == crate::keys::fixed7_text(lng_e7 as int),
{
    Query::Coordinates(Coords::new(lat_e7, lng_e7))
}

} // verus!
