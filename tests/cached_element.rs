use weather_cache::cached_element::{now_millis, CachedElement};

#[test]
fn app_state_check_no_cache_config() {
    let cached_obj = CachedElement::new(10, 0);

    assert!(cached_obj.has_expired());
}

#[test]
fn api_models_check_no_cache_config() {
    let cached_obj = CachedElement::new(10, 0);

    assert!(cached_obj.has_expired());
}

#[test]
fn app_state_check_cache_persistence() {
    let made = now_millis();
    let cached_obj = CachedElement::new_at(10, 1000, made);
    assert!(!cached_obj.has_expired_at(made));

    assert!(cached_obj.has_expired_at(made + 1100));
}

#[test]
fn api_models_check_cache_persistence() {
    let cached_obj = CachedElement::new(10, 1000);
    assert!(!cached_obj.has_expired());

    assert!(cached_obj.has_expired_at(cached_obj.expires_at - 1000 + 1100));
}

#[test]
fn zero_ttl_expires_at_creation_instant() {
    let e = CachedElement::new_at("v", 0, 5_000);
    assert_eq!(e.expires_at, 5_000);
    assert!(e.has_expired_at(5_000));
    assert!(e.has_expired_at(9_000));
}

#[test]
fn positive_ttl_boundary() {
    let e = CachedElement::new_at(7u8, 250, 1_000);
    assert_eq!(e.element, 7);
    assert_eq!(e.expires_at, 1_250);
    assert!(!e.has_expired_at(1_000));
    assert!(!e.has_expired_at(1_249));
    assert!(e.has_expired_at(1_250));
}

#[test]
fn expiry_saturates_at_largest_instant() {
    let e = CachedElement::new_at((), 10, u128::MAX - 3);
    assert_eq!(e.expires_at, u128::MAX);
    assert!(!e.has_expired_at(u128::MAX - 1));
}

#[test]
fn entry_made_now_lives_its_ttl() {
    let e = CachedElement::new(1u32, 600_000);
    assert!(!e.has_expired());
    assert!(e.expires_at >= 600_000);
}

#[test]
fn clock_reads_after_2020() {
    // 2020-01-01T00:00:00Z in milliseconds since the Unix epoch.
    assert!(now_millis() > 1_577_836_800_000);
}
