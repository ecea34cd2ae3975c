use vstd::prelude::*;

verus! {

// Readings that the upstream service reports as single-precision floats are
// held here as their IEEE 754 bit patterns (`f32::to_bits`), which keeps them
// exact while the library carries them through unchanged.

/// A weather condition label and its description.
#[derive(Clone, Debug)]
pub struct WeatherCondition {
    pub condition: String,
    pub description: String,
}

/// Current weather readings. `temp`, `feels_like`, `dew_point`, `uvi` and
/// `wind_speed` are `f32` bit patterns.
#[derive(Clone, Debug)]
pub struct WeatherCurrent {
    pub dt: u32,
    pub sunrise: u32,
    pub sunset: u32,
    pub temp: u32,
    pub feels_like: u32,
    pub pressure: u32,
    pub humidity: u32,
    pub dew_point: u32,
    pub uvi: u32,
    pub clouds: u32,
    pub visibility: u32,
    pub wind_speed: u32,
    pub wind_deg: u32,
    pub conditions: Option<Vec<WeatherCondition>>,
}

/// One hour of forecast. `temp`, `feels_like`, `dew_point`, `wind_speed` and
/// `pop` are `f32` bit patterns.
#[derive(Clone, Debug)]
pub struct WeatherHourly {
    pub dt: u32,
    pub temp: u32,
    pub feels_like: u32,
    pub pressure: u32,
    pub humidity: u32,
    pub dew_point: u32,
    pub clouds: u32,
    pub visibility: u32,
    pub wind_speed: u32,
    pub wind_deg: u32,
    pub conditions: Option<Vec<WeatherCondition>>,
    pub pop: u32,
}

/// A payload of the upstream service. `lat` and `lon` are `f32` bit patterns.
#[derive(Clone, Debug)]
pub struct APIResponse {
    pub lat: Option<u32>,
    pub lon: Option<u32>,
    pub cod: Option<u32>,
    pub message: Option<String>,
    pub current: Option<WeatherCurrent>,
    pub hourly: Option<Vec<WeatherHourly>>,
}

/// The conditions of a reading, as a sequence.
pub open spec fn conditions_view(c: Option<Vec<WeatherCondition>>) -> Option<Seq<WeatherCondition>> {
    match c {
        Some(v) => Some(v@),
        None => None,
    }
}

impl WeatherCurrent {
    /// Both readings hold the same data.
    pub open spec fn same_data(self, o: WeatherCurrent) -> bool {
        &&& (WeatherCurrent { conditions: None, ..self }) == (WeatherCurrent { conditions: None, ..o })
        &&& conditions_view(self.conditions) == conditions_view(o.conditions)
    }

    /// A copy of the reading.
    pub fn duplicate(&self) -> (r: WeatherCurrent)
        ensures
            r.same_data(*self),
    {
        WeatherCurrent { conditions: copy_conditions(&self.conditions), ..*self }
    }
}

impl WeatherHourly {
    /// Both hours hold the same data.
    pub open spec fn same_data(self, o: WeatherHourly) -> bool {
        &&& (WeatherHourly { conditions: None, ..self }) == (WeatherHourly { conditions: None, ..o })
        &&& conditions_view(self.conditions) == conditions_view(o.conditions)
    }

    /// A copy of the hour.
    pub fn duplicate(&self) -> (r: WeatherHourly)
        ensures
            r.same_data(*self),
    {
        WeatherHourly { conditions: copy_conditions(&self.conditions), ..*self }
    }
}

/// Both forecasts hold the same hours, in the same order.
pub open spec fn same_hours(a: Option<Vec<WeatherHourly>>, b: Option<Vec<WeatherHourly>>) -> bool {
    match (a, b) {
        (None, None) => true,
        (Some(x), Some(y)) => x@.len() == y@.len() && forall|i: int|
            0 <= i < x@.len() ==> (#[trigger] x@[i]).same_data(y@[i]),
        _ => false,
    }
}

impl APIResponse {
    /// Both payloads hold the same data.
    pub open spec fn same_data(self, o: APIResponse) -> bool {
        &&& (APIResponse { current: None, hourly: None, ..self }) == (APIResponse {
            current: None,
            hourly: None,
            ..o
        })
        &&& match (self.current, o.current) {
            (None, None) => true,
            (Some(x), Some(y)) => x.same_data(y),
            _ => false,
        }
        &&& same_hours(self.hourly, o.hourly)
    }

    /// The payload carries weather data (current readings or an hourly
    /// forecast): only such a payload may be cached.
    pub open spec fn is_cacheable(self) -> bool {
        self.current is Some || self.hourly is Some
    }

    /// Whether the payload carries weather data.
    pub fn has_weather_data(&self) -> (r: bool)
        ensures
            r == self.is_cacheable(),
    {
        self.current.is_some() || self.hourly.is_some()
    }

    /// A copy of the payload.
    pub fn duplicate(&self) -> (r: APIResponse)
        ensures
            r.same_data(*self),
    {
        let message = match &self.message {
            Some(m) => Some(m.clone()),
            None => None,
        };
        let current = match &self.current {
            Some(c) => Some(c.duplicate()),
            None => None,
        };
        let hourly = match &self.hourly {
            Some(h) => Some(copy_hours(h)),
            None => None,
        };
        APIResponse { lat: self.lat, lon: self.lon, cod: self.cod, message, current, hourly }
    }
}

impl WeatherCondition {
    /// A copy of the condition.
    pub fn duplicate(&self) -> (r: WeatherCondition)
        ensures
            r == *self,
    {
        WeatherCondition { condition: self.condition.clone(), description: self.description.clone() }
    }
}

fn copy_conditions(c: &Option<Vec<WeatherCondition>>) -> (r: Option<Vec<WeatherCondition>>)
    ensures
        conditions_view(r) == conditions_view(*c),
{
    match c {
        None => None,
        Some(v) => {
            let mut out: Vec<WeatherCondition> = Vec::new();
            let mut i: usize = 0;
            while i < v.len()
                invariant
                    i <= v@.len(),
                    out@ == v@.take(i as int),
                decreases v@.len() - i,
            {
                out.push(v[i].duplicate());
                i = i + 1;
                assert(out@ =~= v@.take(i as int));
            }
            assert(v@.take(v@.len() as int) =~= v@);
            Some(out)
        }
    }
}

fn copy_hours(h: &Vec<WeatherHourly>) -> (r: Vec<WeatherHourly>)
    ensures
        same_hours(Some(r), Some(*h)),
{
    let mut out: Vec<WeatherHourly> = Vec::new();
    let mut i: usize = 0;
    while i < h.len()
        invariant
            i <= h@.len(),
            out@.len() == i,
            forall|j: int| 0 <= j < i ==> (#[trigger] out@[j]).same_data(h@[j]),
        decreases h@.len() - i,
    {
        out.push(h[i].duplicate());
        i = i + 1;
    }
    out
}

} // verus!
