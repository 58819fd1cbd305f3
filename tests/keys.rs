use geocode_cache::keys::{cache_key, format_fixed7, lookup_key, Address, Coords, Query};
use geocode_cache::text::to_hex;
use geocode_cache::config::{coordinates_query, GeocodeReqQueryParams, Config};

#[test]
fn address_hash_is_sha256_hex() {
    let a = Address::new(&"abc".to_string());
    assert_eq!(
        a.sha_hash(),
        "ba7816bf8f01cfea414140de5dae2223b00361a396177a9cb410ff61f20015ad"
    );
    let empty = Address::new(&String::new());
    assert_eq!(
        empty.sha_hash(),
        "e3b0c44298fc1c149afbf4c8996fb92427ae41e4649b934ca495991b7852b855"
    );
}

#[test]
fn hex_rendering() {
    assert_eq!(to_hex(&[0x00, 0x0f, 0xa5, 0xff]), "000fa5ff");
    assert_eq!(to_hex(&[]), "");
}

#[test]
fn fixed_point_formatting() {
    assert_eq!(format_fixed7(0), "0.0000000");
    assert_eq!(format_fixed7(515_033_640), "51.5033640");
    assert_eq!(format_fixed7(-1_276), "-0.0001276");
    assert_eq!(format_fixed7(-1_800_000_000), "-180.0000000");
    assert_eq!(format_fixed7(i64::MIN), "-922337203685.4775808");
}

#[test]
fn coords_are_canonical_text() {
    let c = Coords::new(515_033_640, -1_276);
    assert_eq!(c.lat, "51.5033640");
    assert_eq!(c.lng, "-0.0001276");
}

#[test]
fn coords_hash_is_digest_of_joined_text() {
    let c = Coords::new(515_033_640, -1_276);
    let a = Address::new(&"51.5033640-0.0001276".to_string());
    assert_eq!(c.sha_hash(), a.sha_hash());
    assert_eq!(c.sha_hash().len(), 64);
}

#[test]
fn equal_coordinates_share_a_key() {
    let p = "geo".to_string();
    let k1 = lookup_key(&p, &Query::Coordinates(Coords::new(123_456_789, 987_654_321)));
    let k2 = lookup_key(&p, &coordinates_query(123_456_789, 987_654_321));
    let k3 = lookup_key(&p, &Query::Coordinates(Coords::new(123_456_788, 987_654_321)));
    assert_eq!(k1, k2);
    assert_ne!(k1, k3);
}

#[test]
fn distinct_addresses_get_distinct_keys() {
    let p = "geo".to_string();
    let k1 = lookup_key(&p, &Query::Address(Address::new(&"221B Baker Street".to_string())));
    let k2 = lookup_key(&p, &Query::Address(Address::new(&"221b Baker Street".to_string())));
    let k3 = lookup_key(&p, &Query::Address(Address::new(&"221B Baker Street".to_string())));
    assert_ne!(k1, k2);
    assert_eq!(k1, k3);
}

#[test]
fn cache_key_has_prefix_and_slash() {
    let k = cache_key(&"geo".to_string(), &"abcd".to_string());
    assert_eq!(k, "geo/abcd");
    let q = Query::Address(Address::new(&"abc".to_string()));
    assert_eq!(
        lookup_key(&"prod".to_string(), &q),
        "prod/ba7816bf8f01cfea414140de5dae2223b00361a396177a9cb410ff61f20015ad"
    );
}

#[test]
fn request_params_become_address_query() {
    let p = GeocodeReqQueryParams { address: "Main St 1".to_string() };
    assert_eq!(p.to_address().query, "Main St 1");
}

#[test]
fn token_must_match_api_key() {
    let c = Config {
        port: "8080".to_string(),
        redis_connection_url: "redis://localhost".to_string(),
        prefix: "geo".to_string(),
        here_api_key: "k".to_string(),
        api_key: "secret-token".to_string(),
        log_level: "info".to_string(),
    };
    assert!(c.accepts_token(&"secret-token".to_string()));
    assert!(!c.accepts_token(&"secret-tokeN".to_string()));
    assert!(!c.accepts_token(&String::new()));
}
