use vstd::prelude::*;

use crate::models::request::{RequestType, TemperatureFormat};

verus! {

/// A record of the city data source. `lat` and `lon` are `f32` bit patterns.
#[derive(Clone, Debug)]
pub struct City {
    pub id: u32,
    pub lat: u32,
    pub lon: u32,
    pub name: String,
    pub country: String,
}

/// What the city directory holds for one city: its identifier and
/// coordinates (`f32` bit patterns).
#[derive(PartialEq, Eq, Structural, Copy, Clone, Debug)]
pub struct CityEntry {
    pub city_id: u32,
    pub city_lat: u32,
    pub city_lon: u32,
}

impl CityEntry {
    pub fn from(city_id: u32, city_lat: u32, city_lon: u32) -> (r: Self)
        ensures
            r == (CityEntry { city_id, city_lat, city_lon }),
    {
        CityEntry { city_id, city_lat, city_lon }
    }
}

/// The identity under which a response is cached: two keys are the same
/// cache slot exactly when all three fields match.
#[derive(PartialEq, Eq, Structural, Hash, Debug, Copy, Clone)]
pub struct CacheKey {
    pub city_id: u32,
    pub temperature_fmt: TemperatureFormat,
    pub req_type: RequestType,
}

pub open spec fn unit_index(u: TemperatureFormat) -> nat {
    match u {
        TemperatureFormat::Metric => 0,
        TemperatureFormat::Imperial => 1,
        TemperatureFormat::Standard => 2,
    }
}

pub open spec fn kind_index(k: RequestType) -> nat {
    match k {
        RequestType::CurrentWeather => 0,
        RequestType::WeatherForecast => 1,
    }
}

impl CacheKey {
    pub fn from(city_id: u32, temperature_fmt: TemperatureFormat, req_type: RequestType) -> (r: Self)
        ensures
            r == (CacheKey { city_id, temperature_fmt, req_type }),
    {
        CacheKey { city_id, temperature_fmt, req_type }
    }

    /// The integer under which the key is stored: one slot per key.
    pub open spec fn code(self) -> u64 {
        (self.city_id * 6 + unit_index(self.temperature_fmt) * 2 + kind_index(self.req_type)) as u64
    }

    pub fn slot(&self) -> (r: u64)
        ensures
            r == self.code(),
    {
        let u: u64 = match self.temperature_fmt {
            TemperatureFormat::Metric => 0,
            TemperatureFormat::Imperial => 1,
            TemperatureFormat::Standard => 2,
        };
        let k: u64 = match self.req_type {
            RequestType::CurrentWeather => 0,
            RequestType::WeatherForecast => 1,
        };
        self.city_id as u64 * 6 + u * 2 + k
    }
}

/// Distinct keys have distinct slots.
pub proof fn lemma_code_injective(a: CacheKey, b: CacheKey)
    ensures
        a.code() == b.code() ==> a == b,
{
    let ra = unit_index(a.temperature_fmt) * 2 + kind_index(a.req_type);
    let rb = unit_index(b.temperature_fmt) * 2 + kind_index(b.req_type);
    let ca = a.city_id as int;
    let cb = b.city_id as int;
    if a.code() == b.code() {
        assert(ca * 6 + ra == cb * 6 + rb);
        assert(ca == cb) by (nonlinear_arith)
            requires
                ca * 6 + ra == cb * 6 + rb,
                0 <= ra < 6,
                0 <= rb < 6,
        ;
        assert(ra == rb);
    }
}

} // verus!
