use geocode_cache::cache::MemoryCache;
use geocode_cache::errors::{LookupError, SerializeError};
use geocode_cache::keys::{lookup_key, Address, Query};
use geocode_cache::logging::{get_level, level_filter_of, LogLevel};
use geocode_cache::lookup::{CacheRead, Lookup, LookupAction};
use geocode_cache::selection::{select, GeocodeParsedResult, RawAddress, RawCandidate, RawPosition};

fn candidate(street: &str, lat: i64, score: u64) -> RawCandidate {
    RawCandidate {
        address: Some(RawAddress {
            country_name: Some("United Kingdom".to_string()),
            state: None,
            county: None,
            city: Some("London".to_string()),
            district: None,
            street: Some(street.to_string()),
            postal_code: None,
            house_number: Some("221B".to_string()),
        }),
        position: Some(RawPosition { lat: Some(lat), lng: Some(-1_585_710) }),
        query_score: Some(score),
    }
}

fn encode(r: &GeocodeParsedResult) -> String {
    format!("{:?}", r)
}

#[test]
fn set_then_get_until_expiry() {
    let mut c = MemoryCache::new(60);
    let k = "geo/abc".to_string();
    assert_eq!(c.get(&k, 0), None);
    c.set(&k, &"v1".to_string(), 100);
    assert_eq!(c.get(&k, 100), Some("v1".to_string()));
    assert_eq!(c.get(&k, 159), Some("v1".to_string()));
    assert_eq!(c.get(&k, 160), None);
    assert_eq!(c.get(&k, 1000), None);
}

#[test]
fn later_write_wins() {
    let mut c = MemoryCache::new(10);
    let k = "geo/k".to_string();
    let other = "geo/other".to_string();
    c.set(&other, &"o".to_string(), 0);
    c.set(&k, &"first".to_string(), 0);
    c.set(&k, &"second".to_string(), 5);
    assert_eq!(c.get(&k, 12), Some("second".to_string()));
    assert_eq!(c.get(&other, 5), Some("o".to_string()));
    assert_eq!(c.get(&other, 10), None);
}

#[test]
fn expiry_saturates_at_the_largest_time() {
    let mut c = MemoryCache::new(u64::MAX);
    let k = "k".to_string();
    c.set(&k, &"v".to_string(), 10);
    assert_eq!(c.get(&k, u64::MAX - 1), Some("v".to_string()));
    assert_eq!(c.get(&k, u64::MAX), None);
}

#[test]
fn end_to_end_miss_then_cached() {
    let prefix = "geo".to_string();
    let q = Query::Address(Address::new(&"221B Baker Street".to_string()));
    let mut cache = MemoryCache::new(3600);

    let (mut lookup, action) = Lookup::start(&prefix, &q);
    let key = match action {
        LookupAction::ReadCache(k) => k,
        _ => panic!("expected a cache read"),
    };
    assert_eq!(key, lookup_key(&prefix, &q));
    assert_eq!(cache.get(&key, 0), None);
    assert!(matches!(lookup.on_cache_read(CacheRead::Missing), LookupAction::CallProvider));

    let items = vec![candidate("Low", 1, 750_000), candidate("High", 2, 950_000)];
    let provided = select(&items);
    let (write_key, written) = match lookup.on_provider_result(Ok(provided.clone())) {
        LookupAction::WriteCache(k, v) => (k, v),
        _ => panic!("expected a cache write"),
    };
    assert_eq!(write_key, key);
    assert_eq!(written.street, Some("High".to_string()));
    assert_eq!(written.latitude, Some(2));
    let serialized = encode(&written);
    cache.set(&write_key, &serialized, 0);

    let returned = match lookup.on_cache_written(Ok(())) {
        LookupAction::Return(Ok(v)) => v,
        _ => panic!("expected the provider's record"),
    };
    assert_eq!(returned, provided);
    assert_eq!(cache.get(&key, 1), Some(serialized));
}

#[test]
fn cache_hit_skips_provider() {
    let q = Query::Address(Address::new(&"x".to_string()));
    let (mut lookup, _) = Lookup::start(&"p".to_string(), &q);
    let mut hit = GeocodeParsedResult::empty();
    hit.city = Some("Paris".to_string());
    match lookup.on_cache_read(CacheRead::Found(hit.clone())) {
        LookupAction::Return(Ok(v)) => assert_eq!(v, hit),
        _ => panic!("expected the cached record"),
    }
}

#[test]
fn failed_cache_read_is_a_miss() {
    let q = Query::Address(Address::new(&"x".to_string()));
    let (mut lookup, _) = Lookup::start(&"p".to_string(), &q);
    let read = CacheRead::Failed(SerializeError::new_string("connection reset".to_string()));
    assert!(matches!(lookup.on_cache_read(read), LookupAction::CallProvider));
}

#[test]
fn provider_error_propagates() {
    let q = Query::Address(Address::new(&"x".to_string()));
    let (mut lookup, _) = Lookup::start(&"p".to_string(), &q);
    lookup.on_cache_read(CacheRead::Missing);
    let err = LookupError::ProviderError { status: 500, body: "boom".to_string() };
    match lookup.on_provider_result(Err(err.clone())) {
        LookupAction::Return(Err(e)) => assert_eq!(e, err),
        _ => panic!("expected the provider error"),
    }
}

#[test]
fn failed_cache_write_still_returns() {
    let q = Query::Address(Address::new(&"x".to_string()));
    let (mut lookup, _) = Lookup::start(&"p".to_string(), &q);
    lookup.on_cache_read(CacheRead::Missing);
    let mut v = GeocodeParsedResult::empty();
    v.zipcode = Some("75001".to_string());
    lookup.on_provider_result(Ok(v.clone()));
    match lookup.on_cache_written(Err(SerializeError::new_string("write failed".to_string()))) {
        LookupAction::Return(Ok(r)) => assert_eq!(r, v),
        _ => panic!("expected the provider's record"),
    }
}

#[test]
fn log_levels() {
    assert_eq!(get_level(LogLevel::Trace), 10);
    assert_eq!(get_level(LogLevel::Debug), 20);
    assert_eq!(get_level(LogLevel::Info), 30);
    assert_eq!(get_level(LogLevel::Warn), 40);
    assert_eq!(get_level(LogLevel::Error), 50);
    assert_eq!(level_filter_of(&"error".to_string()), LogLevel::Error);
    assert_eq!(level_filter_of(&"warn".to_string()), LogLevel::Warn);
    assert_eq!(level_filter_of(&"debug".to_string()), LogLevel::Debug);
    assert_eq!(level_filter_of(&"trace".to_string()), LogLevel::Trace);
    assert_eq!(level_filter_of(&"info".to_string()), LogLevel::Info);
    assert_eq!(level_filter_of(&"verbose".to_string()), LogLevel::Info);
}
