use vstd::prelude::*;

use crate::models::api::APIResponse;

verus! {

/// Which upstream endpoint a request is served from; part of the cache key.
#[derive(PartialEq, Eq, Structural, Hash, Copy, Clone, Debug)]
pub enum RequestType {
    CurrentWeather,
    WeatherForecast,
}

/// Temperature unit requested by a client.
#[derive(PartialEq, Eq, Structural, Hash, Copy, Clone, Debug)]
pub enum TemperatureFormat {
    Metric,
    Imperial,
    Standard,
}

impl RequestType {
    /// The parts of the upstream answer that a request of this kind leaves
    /// out.
    pub fn exclude_set(&self) -> (r: &'static str)
        ensures
            r@ == match self {
                RequestType::CurrentWeather => "minutely,hourly,daily,alerts"@,
                RequestType::WeatherForecast => "current,minutely,daily,alerts"@,
            },
    {
        match self {
            RequestType::CurrentWeather => "minutely,hourly,daily,alerts",
            RequestType::WeatherForecast => "current,minutely,daily,alerts",
        }
    }
}

impl TemperatureFormat {
    /// The name of the unit in upstream queries.
    pub fn api_name(&self) -> (r: &'static str)
        ensures
            r@ == match self {
                TemperatureFormat::Metric => "metric"@,
                TemperatureFormat::Imperial => "imperial"@,
                TemperatureFormat::Standard => "standard"@,
            },
    {
        match self {
            TemperatureFormat::Metric => "metric",
            TemperatureFormat::Imperial => "imperial",
            TemperatureFormat::Standard => "standard",
        }
    }
}

/// An inbound request: a `name,country` city query and a unit.
pub struct RequestBody {
    pub city_query: String,
    pub temperature_unit: TemperatureFormat,
}

/// What a response carries.
pub enum ResponseData {
    Success(APIResponse),
    Failure(String),
}

/// The envelope of every answer: a success flag and either data or a message.
pub struct RequestResponse {
    pub success: bool,
    pub data: Option<ResponseData>,
    pub msg: Option<String>,
}

impl RequestResponse {
    /// Exactly one of data and message is present; data comes with success
    /// only.
    pub open spec fn well_formed(&self) -> bool {
        (self.data is Some) != (self.msg is Some) && (self.data is Some <==> self.success)
    }

    pub open spec fn success_with(api_response: APIResponse) -> Self {
        RequestResponse { success: true, data: Some(ResponseData::Success(api_response)), msg: None }
    }

    /// A successful answer carrying `api_response`.
    pub fn build_success(api_response: APIResponse) -> (r: Self)
        ensures
            r == Self::success_with(api_response),
            r.well_formed(),
    {
        RequestResponse { success: true, data: Some(ResponseData::Success(api_response)), msg: None }
    }

    /// A failed answer carrying `failure_msg`.
    pub fn build_failure(failure_msg: String) -> (r: Self)
        ensures
            r == (RequestResponse { success: false, data: None, msg: Some(failure_msg) }),
            r.well_formed(),
    {
        RequestResponse { success: false, data: None, msg: Some(failure_msg) }
    }
}

/// `c` equals the lowercase letter `l`, ignoring ASCII case.
pub open spec fn folds_to(c: char, l: char) -> bool {
    c == l || ('a' <= l && l <= 'z' && (c as u32) + 32 == (l as u32))
}

/// `s` spells `alias`, ignoring ASCII case.
pub open spec fn is_alias(s: Seq<char>, alias: Seq<char>) -> bool {
    s.len() == alias.len() && forall|i: int| 0 <= i < s.len() ==> #[trigger] folds_to(s[i], alias[i])
}

/// The unit that a textual alias names, if any.
pub open spec fn unit_of_alias(s: Seq<char>) -> Option<TemperatureFormat> {
    if is_alias(s, "f"@) || is_alias(s, "fahrenheit"@) {
        Some(TemperatureFormat::Imperial)
    } else if is_alias(s, "c"@) || is_alias(s, "celsius"@) {
        Some(TemperatureFormat::Metric)
    } else if is_alias(s, "k"@) || is_alias(s, "kelvin"@) {
        Some(TemperatureFormat::Standard)
    } else {
        None
    }
}

/// Compares `s` with `alias` character by character, ignoring ASCII case.
fn matches_alias(s: &str, alias: &str) -> (r: bool)
    ensures
        r == is_alias(s@, alias@),
{
    let n = s.unicode_len();
    if n != alias.unicode_len() {
        return false;
    }
    let mut i: usize = 0;
    while i < n
        invariant
            n == s@.len(),
            n == alias@.len(),
            i <= n,
            forall|j: int| 0 <= j < i ==> #[trigger] folds_to(s@[j], alias@[j]),
        decreases n - i,
    {
        let c = s.get_char(i);
        let l = alias.get_char(i);
        if !(c == l || ('a' <= l && l <= 'z' && (c as u32) + 32 == (l as u32))) {
            assert(!folds_to(s@[i as int], alias@[i as int]));
            return false;
        }
        i = i + 1;
    }
    true
}

impl TemperatureFormat {
    /// Parses a case-insensitive unit alias: "f"/"fahrenheit", "c"/"celsius",
    /// "k"/"kelvin". Anything else is refused, and the refusal carries the
    /// offending text.
    pub fn parse(s: &str) -> (r: Result<TemperatureFormat, String>)
        ensures
            match unit_of_alias(s@) {
                Some(u) => r == Ok::<TemperatureFormat, String>(u),
                None => r is Err && r->Err_0@ == s@,
            },
    {
        if matches_alias(s, "f") || matches_alias(s, "fahrenheit") {
            Ok(TemperatureFormat::Imperial)
        } else if matches_alias(s, "c") || matches_alias(s, "celsius") {
            Ok(TemperatureFormat::Metric)
        } else if matches_alias(s, "k") || matches_alias(s, "kelvin") {
            Ok(TemperatureFormat::Standard)
        } else {
            Err(String::from_str(s))
        }
    }
}

} // verus!
