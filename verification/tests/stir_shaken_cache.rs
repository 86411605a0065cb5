//! The certificate cache. Times are milliseconds on one clock.
use siphon_ai::stir_shaken::cache::CertCache;

fn chain(tag: u8) -> Vec<Vec<u8>> {
    vec![vec![tag; 4]]
}

const T0: u64 = 1_000_000;

#[test]
fn hit_before_expiry_miss_after() {
    let mut cache = CertCache::new();
    cache.insert("https://c/a.crt".into(), chain(1), T0 + 60_000);

    // Hit while fresh.
    let got = cache.get("https://c/a.crt", T0 + 30_000).unwrap();
    assert_eq!(got, vec![vec![1u8; 4]]);

    // Miss once past the expiry instant.
    assert!(cache.get("https://c/a.crt", T0 + 61_000).is_none());
}

#[test]
fn unknown_url_misses() {
    let mut cache = CertCache::new();
    assert!(cache.get("https://c/none.crt", T0).is_none());
}

#[test]
fn insert_replaces_existing() {
    let mut cache = CertCache::new();
    let exp = T0 + 60_000;
    cache.insert("https://c/a.crt".into(), chain(1), exp);
    cache.insert("https://c/a.crt".into(), chain(2), exp);
    let got = cache.get("https://c/a.crt", T0).unwrap();
    assert_eq!(got, vec![vec![2u8; 4]]);
}

#[test]
fn expired_entry_is_evicted_on_access() {
    let mut cache = CertCache::new();
    cache.insert("https://c/a.crt".into(), chain(1), T0 + 10_000);
    // Access past expiry returns None and removes the entry.
    assert!(cache.get("https://c/a.crt", T0 + 11_000).is_none());
    // Even querying back before the old expiry misses now.
    assert!(cache.get("https://c/a.crt", T0).is_none());
}

#[test]
fn an_entry_is_gone_at_its_very_expiry() {
    let mut cache = CertCache::new();
    cache.insert("u".into(), chain(1), T0);
    cache.insert("v".into(), chain(2), T0 + 1);
    assert!(cache.get("u", T0).is_none());
    assert_eq!(cache.get("v", T0), Some(chain(2)));
}
