use weather_cache::app_state::{AppState, CacheError, CACHE_EXPIRY_MILIS};
use weather_cache::models::api::{APIResponse, WeatherCondition, WeatherCurrent, WeatherHourly};
use weather_cache::models::request::{RequestType, TemperatureFormat};
use weather_cache::models::state::CacheKey;

fn empty_response() -> APIResponse {
    APIResponse { lat: None, lon: None, cod: None, message: None, current: None, hourly: None }
}

fn current_reading(dt: u32) -> WeatherCurrent {
    WeatherCurrent {
        dt,
        sunrise: 1,
        sunset: 1,
        temp: 0.0f32.to_bits(),
        feels_like: 0.0f32.to_bits(),
        pressure: 1,
        humidity: 1,
        dew_point: 0.0f32.to_bits(),
        uvi: 0.0f32.to_bits(),
        clouds: 1,
        visibility: 1,
        wind_speed: 0.0f32.to_bits(),
        wind_deg: 1,
        conditions: None,
    }
}

fn current_response(dt: u32) -> APIResponse {
    APIResponse { current: Some(current_reading(dt)), ..empty_response() }
}

fn check_storage_scenario() {
    let mut app_state = AppState::build(vec![]);

    let cache_key = CacheKey::from(1, TemperatureFormat::Metric, RequestType::CurrentWeather);

    let api_response = empty_response();

    assert!(!app_state.has_valid_cache_for(&cache_key));

    assert!(app_state.cache_response(cache_key, api_response).is_err());

    assert!(!app_state.has_valid_cache_for(&cache_key));

    let api_response = current_response(1);

    assert!(app_state.cache_response(cache_key, api_response).is_ok());

    assert!(app_state.has_valid_cache_for(&cache_key));
}

#[test]
fn app_state_check_cache_storage() {
    check_storage_scenario();
}

#[test]
fn api_models_check_cache_storage() {
    check_storage_scenario();
}

#[test]
fn stored_response_is_valid_at_once() {
    let mut s = AppState::build(vec![]);
    let key = CacheKey::from(9, TemperatureFormat::Imperial, RequestType::WeatherForecast);
    let forecast = APIResponse { hourly: Some(vec![]), ..empty_response() };
    assert_eq!(s.cache_response_at(key, forecast, 100), Ok(()));
    assert!(s.has_valid_cache_for_at(&key, 100));
    assert!(s.has_valid_cache_for_at(&key, 100 + CACHE_EXPIRY_MILIS - 1));
    assert!(!s.has_valid_cache_for_at(&key, 100 + CACHE_EXPIRY_MILIS));
}

#[test]
fn second_store_while_live_is_refused() {
    let mut s = AppState::build(vec![]);
    let key = CacheKey::from(1, TemperatureFormat::Metric, RequestType::CurrentWeather);
    assert_eq!(s.cache_response_at(key, current_response(11), 0), Ok(()));
    assert_eq!(s.cache_response_at(key, current_response(22), 10), Err(CacheError::AlreadyCached));
    let kept = s.get_cache_for_at(&key, 20).unwrap();
    assert_eq!(kept.current.as_ref().unwrap().dt, 11);
}

#[test]
fn store_after_expiry_replaces_entry() {
    let mut s = AppState::build(vec![]);
    let key = CacheKey::from(1, TemperatureFormat::Metric, RequestType::CurrentWeather);
    assert_eq!(s.cache_response_at(key, current_response(11), 0), Ok(()));
    assert_eq!(s.cache_response_at(key, current_response(22), CACHE_EXPIRY_MILIS), Ok(()));
    let now = s.get_cache_for_at(&key, CACHE_EXPIRY_MILIS + 1).unwrap();
    assert_eq!(now.current.as_ref().unwrap().dt, 22);
}

#[test]
fn invalid_payload_is_refused_and_absent() {
    let mut s = AppState::build(vec![]);
    let key = CacheKey::from(3, TemperatureFormat::Standard, RequestType::CurrentWeather);
    let failure = APIResponse { cod: Some(401), message: Some("bad key".to_string()), ..empty_response() };
    assert_eq!(s.cache_response_at(key, failure, 0), Err(CacheError::InvalidPayload));
    assert!(!s.has_valid_cache_for_at(&key, 0));
    assert!(s.get_cache_for_at(&key, 0).is_none());
}

#[test]
fn invalid_payload_wins_over_live_entry() {
    let mut s = AppState::build(vec![]);
    let key = CacheKey::from(3, TemperatureFormat::Standard, RequestType::CurrentWeather);
    assert_eq!(s.cache_response_at(key, current_response(1), 0), Ok(()));
    assert_eq!(s.cache_response_at(key, empty_response(), 1), Err(CacheError::InvalidPayload));
}

#[test]
fn expired_lookup_evicts_entry() {
    let mut s = AppState::build(vec![]);
    let key = CacheKey::from(5, TemperatureFormat::Metric, RequestType::CurrentWeather);
    assert_eq!(s.cache_response_at(key, current_response(1), 0), Ok(()));
    // Not evicted by the read-only check.
    assert!(!s.has_valid_cache_for_at(&key, CACHE_EXPIRY_MILIS));
    assert!(s.get_cache_for_at(&key, CACHE_EXPIRY_MILIS).is_none());
    // Evicted: even an earlier instant now finds nothing.
    assert!(!s.has_valid_cache_for_at(&key, 0));
}

#[test]
fn live_lookup_returns_value_and_keeps_it() {
    let mut s = AppState::build(vec![]);
    let key = CacheKey::from(5, TemperatureFormat::Metric, RequestType::CurrentWeather);
    assert_eq!(s.cache_response_at(key, current_response(42), 0), Ok(()));
    assert_eq!(s.get_cache_for_at(&key, 1).unwrap().current.as_ref().unwrap().dt, 42);
    assert!(s.has_valid_cache_for_at(&key, 2));
}

#[test]
fn request_kinds_do_not_collide() {
    let mut s = AppState::build(vec![]);
    let current = CacheKey::from(1, TemperatureFormat::Metric, RequestType::CurrentWeather);
    let forecast = CacheKey::from(1, TemperatureFormat::Metric, RequestType::WeatherForecast);
    assert_ne!(current, forecast);
    assert_ne!(current.slot(), forecast.slot());
    assert_eq!(s.cache_response_at(current, current_response(1), 0), Ok(()));
    assert!(!s.has_valid_cache_for_at(&forecast, 0));
    let hourly = APIResponse { hourly: Some(vec![]), ..empty_response() };
    assert_eq!(s.cache_response_at(forecast, hourly, 0), Ok(()));
    assert!(s.get_cache_for_at(&current, 0).unwrap().current.is_some());
    assert!(s.get_cache_for_at(&forecast, 0).unwrap().current.is_none());
}

#[test]
fn units_and_cities_do_not_collide() {
    let a = CacheKey::from(1, TemperatureFormat::Metric, RequestType::CurrentWeather);
    let b = CacheKey::from(1, TemperatureFormat::Imperial, RequestType::CurrentWeather);
    let c = CacheKey::from(2, TemperatureFormat::Metric, RequestType::CurrentWeather);
    assert_eq!(a.slot(), 6);
    assert_eq!(b.slot(), 8);
    assert_eq!(c.slot(), 12);
    let top = CacheKey::from(u32::MAX, TemperatureFormat::Standard, RequestType::WeatherForecast);
    assert_eq!(top.slot(), u32::MAX as u64 * 6 + 5);
}

#[test]
fn duplicate_copies_every_part() {
    let hour = WeatherHourly {
        dt: 3,
        temp: 1.5f32.to_bits(),
        feels_like: 1.0f32.to_bits(),
        pressure: 1000,
        humidity: 50,
        dew_point: 0.5f32.to_bits(),
        clouds: 20,
        visibility: 10000,
        wind_speed: 2.0f32.to_bits(),
        wind_deg: 90,
        conditions: Some(vec![WeatherCondition {
            condition: "Rain".to_string(),
            description: "light rain".to_string(),
        }]),
        pop: 0.25f32.to_bits(),
    };
    let r = APIResponse {
        lat: Some(34.94f32.to_bits()),
        lon: Some(36.32f32.to_bits()),
        cod: Some(200),
        message: Some("ok".to_string()),
        current: Some(current_reading(77)),
        hourly: Some(vec![hour]),
    };
    let d = r.duplicate();
    assert_eq!(f32::from_bits(d.lat.unwrap()), 34.94f32);
    assert_eq!(d.message.as_deref(), Some("ok"));
    assert_eq!(d.current.as_ref().unwrap().dt, 77);
    let h = &d.hourly.as_ref().unwrap()[0];
    assert_eq!(h.pressure, 1000);
    assert_eq!(f32::from_bits(h.pop), 0.25);
    assert_eq!(h.conditions.as_ref().unwrap()[0].description, "light rain");
    assert!(d.has_weather_data());
    assert!(!empty_response().has_weather_data());
}
