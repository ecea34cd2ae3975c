//! A caching layer in front of a weather data service: a city directory that
//! resolves `name,country` queries, composite cache keys, expiring entries and
//! a response cache with lazy eviction, plus the decisions of the request
//! dispatcher that ties them together.

pub mod app_state;
pub mod cached_element;
pub mod models;
