use vstd::prelude::*;

use std::collections::HashMap;

use crate::cached_element::{expiry_time, now_millis, CachedElement};
use crate::models::api::APIResponse;
use crate::models::request::{RequestBody, RequestResponse, RequestType, ResponseData, TemperatureFormat};
use crate::models::state::{lemma_code_injective, CacheKey, City, CityEntry};

verus! {

broadcast use vstd::std_specs::hash::group_hash_axioms;

/// Why a response was not stored.
#[derive(PartialEq, Eq, Structural, Copy, Clone, Debug)]
pub enum CacheError {
    /// The payload carries no weather data.
    InvalidPayload,
    /// A live entry is already stored under the key.
    AlreadyCached,
}

/// How long a stored response stays valid, in milliseconds (10 minutes).
pub const CACHE_EXPIRY_MILIS: u128 = 600_000;

/// The directory key of a city: its name and country code, compared exactly.
pub type CityKey = (Seq<char>, Seq<char>);

/// One row of the city directory: name, country code and what they resolve to.
pub type CityRow = (String, String, CityEntry);

/// The directory that a list of rows builds, inserting them in order: a later
/// row with the same name and country replaces an earlier one.
pub open spec fn directory_of(rows: Seq<CityRow>) -> Map<CityKey, CityEntry>
    decreases rows.len(),
{
    if rows.len() == 0 {
        Map::empty()
    } else {
        let r = rows.last();
        directory_of(rows.drop_last()).insert((r.0@, r.1@), r.2)
    }
}

/// The directory that a list of city records builds, in the same way.
pub open spec fn directory_of_cities(cities: Seq<City>) -> Map<CityKey, CityEntry>
    decreases cities.len(),
{
    if cities.len() == 0 {
        Map::empty()
    } else {
        let c = cities.last();
        directory_of_cities(cities.drop_last()).insert(
            (c.name@, c.country@),
            CityEntry { city_id: c.id, city_lat: c.lat, city_lon: c.lon },
        )
    }
}

pub open spec fn lookup<K, V>(m: Map<K, V>, k: K) -> Option<V> {
    if m.contains_key(k) {
        Some(m[k])
    } else {
        None
    }
}

pub open spec fn no_comma(s: Seq<char>) -> bool {
    forall|j: int| 0 <= j < s.len() ==> s[j] != ','
}

/// `q` holds exactly one comma, at index `i`.
pub open spec fn sole_comma_at(q: Seq<char>, i: int) -> bool {
    0 <= i < q.len() && q[i] == ',' && no_comma(q.take(i)) && no_comma(q.skip(i + 1))
}

/// A city query split into name and country code: it must hold exactly one
/// comma; nothing is trimmed.
pub open spec fn query_key(q: Seq<char>) -> Option<CityKey> {
    if exists|i: int| sole_comma_at(q, i) {
        let i = choose|i: int| sole_comma_at(q, i);
        Some((q.take(i), q.skip(i + 1)))
    } else {
        None
    }
}

proof fn lemma_sole_comma_unique(q: Seq<char>, i: int, k: int)
    requires
        sole_comma_at(q, i),
        sole_comma_at(q, k),
    ensures
        i == k,
{
    if i < k {
        assert(q.take(k)[i] == q[i]);
    } else if k < i {
        assert(q.take(i)[k] == q[k]);
    }
}

/// Splits a city query at its only comma.
fn split_query(q: &str) -> (r: Option<(String, String)>)
    ensures
        match query_key(q@) {
            Some(k) => r is Some && r->Some_0.0@ == k.0 && r->Some_0.1@ == k.1,
            None => r is None,
        },
{
    let n = q.unicode_len();
    let mut first: Option<usize> = None;
    let mut i: usize = 0;
    while i < n
        invariant
            n == q@.len(),
            i <= n,
            match first {
                None => forall|j: int| 0 <= j < i ==> q@[j] != ',',
                Some(p) => p < i && q@[p as int] == ',' && forall|j: int|
                    0 <= j < i && j != p ==> q@[j] != ',',
            },
        decreases n - i,
    {
        if q.get_char(i) == ',' {
            match first {
                None => {
                    first = Some(i);
                },
                Some(p) => {
                    proof {
                        assert forall|k: int| !sole_comma_at(q@, k) by {
                            if sole_comma_at(q@, k) {
                                if k != p as int {
                                    if k < p {
                                        assert(q@.skip(k + 1)[p - k - 1] == q@[p as int]);
                                    } else {
                                        assert(q@.take(k)[p as int] == q@[p as int]);
                                    }
                                } else {
                                    assert(q@.skip(k + 1)[i - k - 1] == q@[i as int]);
                                }
                            }
                        }
                    }
                    return None;
                },
            }
        }
        i = i + 1;
    }
    match first {
        None => {
            proof {
                assert forall|k: int| !sole_comma_at(q@, k) by {
                    if sole_comma_at(q@, k) {
                        assert(q@[k] == ',');
                    }
                }
            }
            None
        },
        Some(p) => {
            proof {
                assert forall|j: int| 0 <= j < q@.take(p as int).len() implies #[trigger] q@.take(
                    p as int,
                )[j] != ',' by {
                    assert(q@.take(p as int)[j] == q@[j]);
                }
                assert forall|j: int| 0 <= j < q@.skip(p + 1).len() implies #[trigger] q@.skip(
                    p + 1,
                )[j] != ',' by {
                    assert(q@.skip(p + 1)[j] == q@[p + 1 + j]);
                }
                assert(sole_comma_at(q@, p as int));
                let k = choose|k: int| sole_comma_at(q@, k);
                lemma_sole_comma_unique(q@, p as int, k);
            }
            let name = q.substring_char(0, p);
            let country = q.substring_char(p + 1, n);
            proof {
                assert(name@ =~= q@.take(p as int));
                assert(country@ =~= q@.skip(p + 1));
            }
            Some((String::from_str(name), String::from_str(country)))
        },
    }
}

/// The shared state of the service: the city directory, read-only once
/// built, and the response cache.
pub struct AppState {
    city_db: Vec<CityRow>,
    api_cache: HashMap<u64, CachedElement<APIResponse>>,
}

/// Some entry under `key` has not expired at instant `now`.
pub open spec fn live(m: Map<CacheKey, CachedElement<APIResponse>>, key: CacheKey, now: u128) -> bool {
    m.contains_key(key) && !m[key].expired_at(now)
}

/// The cache once an expired entry under `key` has been dropped.
pub open spec fn cleared(m: Map<CacheKey, CachedElement<APIResponse>>, key: CacheKey, now: u128) -> Map<
    CacheKey,
    CachedElement<APIResponse>,
> {
    if m.contains_key(key) && m[key].expired_at(now) {
        m.remove(key)
    } else {
        m
    }
}

/// What storing `response` under `key` at instant `now` answers.
pub open spec fn store_outcome(
    m: Map<CacheKey, CachedElement<APIResponse>>,
    key: CacheKey,
    response: APIResponse,
    now: u128,
) -> Result<(), CacheError> {
    if !response.is_cacheable() {
        Err(CacheError::InvalidPayload)
    } else if live(m, key, now) {
        Err(CacheError::AlreadyCached)
    } else {
        Ok(())
    }
}

/// The cache after storing `response` under `key` at instant `now`.
pub open spec fn cache_after_store(
    m: Map<CacheKey, CachedElement<APIResponse>>,
    key: CacheKey,
    response: APIResponse,
    now: u128,
) -> Map<CacheKey, CachedElement<APIResponse>> {
    if store_outcome(m, key, response, now) is Ok {
        m.insert(key, CachedElement { element: response, expires_at: expiry_time(now, CACHE_EXPIRY_MILIS) })
    } else {
        m
    }
}

/// What the upstream service must be asked for to answer a request.
#[derive(Copy, Clone, Debug)]
pub struct FetchOrder {
    pub cache_key: CacheKey,
    pub city: CityEntry,
}

/// The next thing to do for a request: answer it, or fetch from upstream and
/// then hand the outcome to `AppState::finish_request`.
pub enum RouteStep {
    Respond(RequestResponse),
    Fetch(FetchOrder),
}

/// The message of an answer to a query that resolves to no city.
pub open spec fn not_found_message(query: Seq<char>) -> Seq<char> {
    "No valid city_id found for query "@ + query
}

/// An upstream payload that carries a status other than 200.
pub open spec fn is_upstream_failure(response: APIResponse) -> bool {
    response.cod is Some && response.cod->Some_0 != 200
}

/// The message of an answer to an upstream failure: the upstream message,
/// empty when there is none.
pub open spec fn upstream_message(response: APIResponse) -> Seq<char> {
    match response.message {
        Some(m) => m@,
        None => Seq::empty(),
    }
}

/// A cache stored by slot, seen by key.
spec fn by_key(m: Map<u64, CachedElement<APIResponse>>) -> Map<CacheKey, CachedElement<APIResponse>> {
    Map::new(|k: CacheKey| m.contains_key(k.code()), |k: CacheKey| m[k.code()])
}

proof fn lemma_by_key_remove(m: Map<u64, CachedElement<APIResponse>>, key: CacheKey)
    ensures
        by_key(m.remove(key.code())) == by_key(m).remove(key),
{
    assert forall|k: CacheKey| #[trigger] by_key(m.remove(key.code())).contains_key(k) == by_key(
        m,
    ).remove(key).contains_key(k) by {
        lemma_code_injective(k, key);
    }
    assert(by_key(m.remove(key.code())) =~= by_key(m).remove(key));
}

proof fn lemma_by_key_insert(
    m: Map<u64, CachedElement<APIResponse>>,
    key: CacheKey,
    v: CachedElement<APIResponse>,
)
    ensures
        by_key(m.insert(key.code(), v)) == by_key(m).insert(key, v),
{
    assert forall|k: CacheKey| #[trigger] by_key(m.insert(key.code(), v)).contains_key(k)
        == by_key(m).insert(key, v).contains_key(k) by {
        lemma_code_injective(k, key);
    }
    assert forall|k: CacheKey| #[trigger] by_key(m.insert(key.code(), v)).contains_key(k)
        implies by_key(m.insert(key.code(), v))[k] == by_key(m).insert(key, v)[k] by {
        lemma_code_injective(k, key);
    }
    assert(by_key(m.insert(key.code(), v)) =~= by_key(m).insert(key, v));
}

impl AppState {
    /// The city directory.
    pub closed spec fn directory(&self) -> Map<CityKey, CityEntry> {
        directory_of(self.city_db@)
    }

    /// The response cache, by key.
    pub closed spec fn cache(&self) -> Map<CacheKey, CachedElement<APIResponse>> {
        by_key(self.api_cache@)
    }

    /// A state with the directory that `city_list` builds and an empty cache.
    pub fn build(city_list: Vec<City>) -> (r: Self)
        ensures
            r.directory() == directory_of_cities(city_list@),
            r.cache() == Map::<CacheKey, CachedElement<APIResponse>>::empty(),
    {
        let r = AppState { api_cache: HashMap::new(), city_db: Self::init_hash_table(city_list) };
        assert(r.cache() =~= Map::<CacheKey, CachedElement<APIResponse>>::empty());
        r
    }

    fn init_hash_table(city_list: Vec<City>) -> (r: Vec<CityRow>)
        ensures
            directory_of(r@) == directory_of_cities(city_list@),
    {
        let mut rows: Vec<CityRow> = Vec::new();
        let mut i: usize = 0;
        while i < city_list.len()
            invariant
                i <= city_list@.len(),
                directory_of(rows@) == directory_of_cities(city_list@.take(i as int)),
            decreases city_list@.len() - i,
        {
            let c = &city_list[i];
            let row: CityRow = (c.name.clone(), c.country.clone(), CityEntry::from(c.id, c.lat, c.lon));
            let ghost before = rows@;
            rows.push(row);
            proof {
                assert(rows@.drop_last() =~= before);
                assert(city_list@.take(i + 1).drop_last() =~= city_list@.take(i as int));
            }
            i = i + 1;
        }
        assert(city_list@.take(city_list@.len() as int) =~= city_list@);
        rows
    }

    /// Resolves a `name,country` query to the city it names. The query must
    /// hold exactly one comma, and both parts must match a directory entry
    /// exactly (case included).
    pub fn get_city_keys_for_query(&self, city_query: &str) -> (r: Option<CityEntry>)
        ensures
            r == match query_key(city_query@) {
                Some(k) => lookup(self.directory(), k),
                None => None,
            },
    {
        match split_query(city_query) {
            Some((name, country)) => self.find_city(&name, &country),
            None => None,
        }
    }

    /// Stores `response` under `cache_key`, reading the clock once. It is
    /// refused when the payload carries no weather data, or when a live entry
    /// is stored under the key already; an expired one is dropped first.
    pub fn cache_response(&mut self, cache_key: CacheKey, response: APIResponse) -> (r: Result<
        (),
        CacheError,
    >)
        ensures
            exists|now: u128|
                {
                    &&& r == store_outcome(old(self).cache(), cache_key, response, now)
                    &&& final(self).cache() == cache_after_store(
                        old(self).cache(),
                        cache_key,
                        response,
                        now,
                    )
                },
            final(self).directory() == old(self).directory(),
    {
        self.cache_response_at(cache_key, response, now_millis())
    }

    /// Stores `response` under `cache_key` at instant `now`, as
    /// `cache_response` does.
    pub fn cache_response_at(&mut self, cache_key: CacheKey, response: APIResponse, now: u128) -> (r:
        Result<(), CacheError>)
        ensures
            r == store_outcome(old(self).cache(), cache_key, response, now),
            final(self).cache() == cache_after_store(old(self).cache(), cache_key, response, now),
            final(self).directory() == old(self).directory(),
    {
        if !response.has_weather_data() {
            return Err(CacheError::InvalidPayload);
        }
        if self.check_and_clear_cache_at(&cache_key, now) {
            return Err(CacheError::AlreadyCached);
        }
        let cache = CachedElement::new_at(response, CACHE_EXPIRY_MILIS, now);
        let code = cache_key.slot();
        let ghost before = self.api_cache@;
        let _ = self.api_cache.insert(code, cache);
        proof {
            lemma_by_key_insert(before, cache_key, cache);
            assert(old(self).cache().insert(cache_key, cache) =~= cleared(
                old(self).cache(),
                cache_key,
                now,
            ).insert(cache_key, cache));
        }
        Ok(())
    }

    /// The response stored under `cache_key`, if it has not expired by the
    /// clock. An expired entry is dropped from the cache on the way.
    pub fn get_cache_for(&mut self, cache_key: &CacheKey) -> (r: Option<&APIResponse>)
        ensures
            exists|now: u128|
                {
                    &&& final(self).cache() == cleared(old(self).cache(), *cache_key, now)
                    &&& r is Some == live(old(self).cache(), *cache_key, now)
                },
            r is Some ==> old(self).cache().contains_key(*cache_key) && *r->Some_0 == old(
                self,
            ).cache()[*cache_key].element,
            final(self).directory() == old(self).directory(),
    {
        self.get_cache_for_at(cache_key, now_millis())
    }

    /// The response stored under `cache_key`, if it has not expired at
    /// instant `now`; an expired entry is dropped.
    pub fn get_cache_for_at(&mut self, cache_key: &CacheKey, now: u128) -> (r: Option<&APIResponse>)
        ensures
            final(self).cache() == cleared(old(self).cache(), *cache_key, now),
            r is Some == live(old(self).cache(), *cache_key, now),
            r is Some ==> *r->Some_0 == old(self).cache()[*cache_key].element,
            final(self).directory() == old(self).directory(),
    {
        if self.check_and_clear_cache_at(cache_key, now) {
            let code = cache_key.slot();
            match self.api_cache.get(&code) {
                Some(c) => Some(&c.element),
                None => None,
            }
        } else {
            None
        }
    }

    /// Whether a live entry is stored under `cache_key` by the clock. Drops
    /// nothing.
    pub fn has_valid_cache_for(&self, cache_key: &CacheKey) -> (r: bool)
        ensures
            exists|now: u128| r == live(self.cache(), *cache_key, now),
            !self.cache().contains_key(*cache_key) ==> !r,
    {
        self.has_valid_cache_for_at(cache_key, now_millis())
    }

    /// Whether a live entry is stored under `cache_key` at instant `now`.
    pub fn has_valid_cache_for_at(&self, cache_key: &CacheKey, now: u128) -> (r: bool)
        ensures
            r == live(self.cache(), *cache_key, now),
    {
        let code = cache_key.slot();
        match self.api_cache.get(&code) {
            Some(cache) => !cache.has_expired_at(now),
            None => false,
        }
    }

    /// Drops the entry under `cache_key` if it has expired at `now`, and
    /// tells whether a live one remains.
    fn check_and_clear_cache_at(&mut self, cache_key: &CacheKey, now: u128) -> (r: bool)
        ensures
            r == live(old(self).cache(), *cache_key, now),
            final(self).cache() == cleared(old(self).cache(), *cache_key, now),
            final(self).directory() == old(self).directory(),
    {
        let code = cache_key.slot();
        let expired = match self.api_cache.get(&code) {
            Some(cache) => cache.has_expired_at(now),
            None => {
                return false;
            },
        };
        if expired {
            let ghost before = self.api_cache@;
            self.api_cache.remove(&code);
            proof {
                lemma_by_key_remove(before, *cache_key);
            }
            return false;
        }
        true
    }

    /// The city that a query resolves to in this directory.
    pub open spec fn resolve(&self, query: Seq<char>) -> Option<CityEntry> {
        match query_key(query) {
            Some(k) => lookup(self.directory(), k),
            None => None,
        }
    }

    /// Takes the first step of answering `body` with a request of kind
    /// `request_type`, by the clock.
    pub fn begin_request(&mut self, body: &RequestBody, request_type: RequestType) -> (r: RouteStep)
        ensures
            exists|now: u128| Self::began(*old(self), *final(self), *body, request_type, now, r),
    {
        self.begin_request_at(body, request_type, now_millis())
    }

    /// What `begin_request_at` does: a query that resolves to no city is
    /// answered with a failure; a live cached response is answered from the
    /// cache; anything else asks for a fetch. The cache is left unchanged.
    pub open spec fn began(
        old: AppState,
        new: AppState,
        body: RequestBody,
        request_type: RequestType,
        now: u128,
        r: RouteStep,
    ) -> bool {
        &&& new.cache() == old.cache()
        &&& new.directory() == old.directory()
        &&& match old.resolve(body.city_query@) {
            None => match r {
                RouteStep::Respond(resp) => !resp.success && resp.data is None && resp.msg is Some
                    && resp.msg->Some_0@ == not_found_message(body.city_query@),
                _ => false,
            },
            Some(city) => {
                let key = CacheKey {
                    city_id: city.city_id,
                    temperature_fmt: body.temperature_unit,
                    req_type: request_type,
                };
                if live(old.cache(), key, now) {
                    match r {
                        RouteStep::Respond(resp) => resp.success && resp.msg is None && match resp.data {
                            Some(ResponseData::Success(d)) => d.same_data(old.cache()[key].element),
                            _ => false,
                        },
                        _ => false,
                    }
                } else {
                    r == RouteStep::Fetch(FetchOrder { cache_key: key, city })
                }
            },
        }
    }

    /// Takes the first step of answering `body` at instant `now`.
    pub fn begin_request_at(&mut self, body: &RequestBody, request_type: RequestType, now: u128) -> (r:
        RouteStep)
        ensures
            Self::began(*old(self), *final(self), *body, request_type, now, r),
    {
        match self.get_city_keys_for_query(body.city_query.as_str()) {
            None => {
                let mut msg = String::from_str("No valid city_id found for query ");
                msg.append(body.city_query.as_str());
                RouteStep::Respond(RequestResponse::build_failure(msg))
            },
            Some(city) => {
                let cache_key = CacheKey::from(city.city_id, body.temperature_unit, request_type);
                if self.has_valid_cache_for_at(&cache_key, now) {
                    match self.get_cache_for_at(&cache_key, now) {
                        Some(cached) => RouteStep::Respond(RequestResponse::build_success(cached.duplicate())),
                        None => RouteStep::Fetch(FetchOrder { cache_key, city }),
                    }
                } else {
                    RouteStep::Fetch(FetchOrder { cache_key, city })
                }
            },
        }
    }

    /// Answers a request once the upstream fetch that `order` asked for has
    /// come back, by the clock. Also tells why the payload was not stored, if
    /// storing it was refused.
    pub fn finish_request(&mut self, order: &FetchOrder, outcome: Result<APIResponse, String>) -> (r: (
        RequestResponse,
        Option<CacheError>,
    ))
        ensures
            exists|now: u128| Self::finished(*old(self), *final(self), *order, outcome, now, r),
    {
        self.finish_request_at(order, outcome, now_millis())
    }

    /// What `finish_request_at` does: a transport failure is answered with
    /// its text, an upstream status other than 200 with the upstream message,
    /// and neither is stored; any other payload is stored under the order's
    /// key (a refusal to store is reported, not answered) and answered.
    pub open spec fn finished(
        old: AppState,
        new: AppState,
        order: FetchOrder,
        outcome: Result<APIResponse, String>,
        now: u128,
        r: (RequestResponse, Option<CacheError>),
    ) -> bool {
        &&& new.directory() == old.directory()
        &&& match outcome {
            Err(e) => new.cache() == old.cache() && r.1 is None && r.0 == (RequestResponse {
                success: false,
                data: None,
                msg: Some(e),
            }),
            Ok(response) => if is_upstream_failure(response) {
                &&& new.cache() == old.cache()
                &&& r.1 is None
                &&& !r.0.success && r.0.data is None && r.0.msg is Some
                &&& r.0.msg->Some_0@ == upstream_message(response)
            } else {
                &&& r.0 == RequestResponse::success_with(response)
                &&& exists|stored: APIResponse|
                    {
                        &&& stored.same_data(response)
                        &&& new.cache() == cache_after_store(old.cache(), order.cache_key, stored, now)
                        &&& r.1 == match store_outcome(old.cache(), order.cache_key, stored, now) {
                            Ok(()) => None,
                            Err(e) => Some(e),
                        }
                    }
            },
        }
    }

    /// Answers a request once its fetch has come back, at instant `now`.
    pub fn finish_request_at(&mut self, order: &FetchOrder, outcome: Result<APIResponse, String>, now: u128) -> (r: (
        RequestResponse,
        Option<CacheError>,
    ))
        ensures
            Self::finished(*old(self), *final(self), *order, outcome, now, r),
    {
        match outcome {
            Err(e) => (RequestResponse::build_failure(e), None),
            Ok(response) => {
                let failed = match response.cod {
                    Some(c) => c != 200,
                    None => false,
                };
                if failed {
                    let msg = match response.message {
                        Some(m) => m,
                        None => String::new(),
                    };
                    (RequestResponse::build_failure(msg), None)
                } else {
                    let stored = response.duplicate();
                    let refused = match self.cache_response_at(order.cache_key, stored, now) {
                        Ok(()) => None,
                        Err(e) => Some(e),
                    };
                    (RequestResponse::build_success(response), refused)
                }
            },
        }
    }

    fn find_city(&self, name: &String, country: &String) -> (r: Option<CityEntry>)
        ensures
            r == lookup(self.directory(), (name@, country@)),
    {
        let ghost k = (name@, country@);
        let mut i: usize = self.city_db.len();
        assert(self.city_db@.take(i as int) =~= self.city_db@);
        while i > 0
            invariant
                k == (name@, country@),
                i <= self.city_db@.len(),
                lookup(directory_of(self.city_db@.take(i as int)), k) == lookup(self.directory(), k),
            decreases i,
        {
            let row = &self.city_db[i - 1];
            proof {
                assert(self.city_db@.take(i as int).drop_last() =~= self.city_db@.take(i - 1));
                assert(self.city_db@.take(i as int).last() == self.city_db@[i - 1]);
                assert(directory_of(self.city_db@.take(i as int)) == directory_of(
                    self.city_db@.take(i - 1),
                ).insert((row.0@, row.1@), row.2));
            }
            if row.0.eq(name) && row.1.eq(country) {
                assert((row.0@, row.1@) == k);
                return Some(row.2);
            }
            assert((row.0@, row.1@) != k);
            i = i - 1;
        }
        assert(self.city_db@.take(0) =~= Seq::<CityRow>::empty());
        None
    }
}

/// Storing a payload that carries weather data leaves a live entry under its
/// key at that instant, whether this store or an earlier one made it.
pub proof fn lemma_stored_is_valid(
    m: Map<CacheKey, CachedElement<APIResponse>>,
    key: CacheKey,
    response: APIResponse,
    now: u128,
)
    requires
        response.is_cacheable(),
        now < u128::MAX,
    ensures
        live(cache_after_store(m, key, response, now), key, now),
{
}

/// While the first stored entry lives, storing again under the same key is
/// refused as already cached and leaves the first value in place.
pub proof fn lemma_second_store_refused(
    m: Map<CacheKey, CachedElement<APIResponse>>,
    key: CacheKey,
    first: APIResponse,
    second: APIResponse,
    now: u128,
    later: u128,
)
    requires
        first.is_cacheable(),
        second.is_cacheable(),
        !live(m, key, now),
        now <= later,
        later < expiry_time(now, CACHE_EXPIRY_MILIS),
    ensures
        ({
            let m1 = cache_after_store(m, key, first, now);
            &&& store_outcome(m, key, first, now) == Ok::<(), CacheError>(())
            &&& store_outcome(m1, key, second, later) == Err::<(), CacheError>(CacheError::AlreadyCached)
            &&& cache_after_store(m1, key, second, later) == m1
            &&& m1[key].element == first
        }),
{
}

/// A payload without weather data is always refused as invalid and leaves
/// the cache as it was; in particular an absent key stays absent.
pub proof fn lemma_invalid_payload_refused(
    m: Map<CacheKey, CachedElement<APIResponse>>,
    key: CacheKey,
    response: APIResponse,
    now: u128,
)
    requires
        !response.is_cacheable(),
    ensures
        store_outcome(m, key, response, now) == Err::<(), CacheError>(CacheError::InvalidPayload),
        cache_after_store(m, key, response, now) == m,
        !m.contains_key(key) ==> !cache_after_store(m, key, response, now).contains_key(key),
{
}

/// Looking up an expired entry finds nothing and drops it, so that no live
/// entry is found under the key afterwards, at any instant.
pub proof fn lemma_expired_lookup_evicts(
    m: Map<CacheKey, CachedElement<APIResponse>>,
    key: CacheKey,
    now: u128,
    later: u128,
)
    requires
        m.contains_key(key),
        m[key].expired_at(now),
    ensures
        !live(m, key, now),
        !cleared(m, key, now).contains_key(key),
        !live(cleared(m, key, now), key, later),
{
}

/// Keys that differ only in the request kind are separate cache entries:
/// storing or evicting under one leaves the other as it was.
pub proof fn lemma_request_kinds_separate(
    m: Map<CacheKey, CachedElement<APIResponse>>,
    city_id: u32,
    unit: TemperatureFormat,
    kind_a: RequestType,
    kind_b: RequestType,
    response: APIResponse,
    now: u128,
)
    requires
        kind_a != kind_b,
    ensures
        ({
            let a = CacheKey { city_id, temperature_fmt: unit, req_type: kind_a };
            let b = CacheKey { city_id, temperature_fmt: unit, req_type: kind_b };
            &&& a != b
            &&& a.code() != b.code()
            &&& lookup(cache_after_store(m, a, response, now), b) == lookup(m, b)
            &&& lookup(cleared(m, a, now), b) == lookup(m, b)
        }),
{
    let a = CacheKey { city_id, temperature_fmt: unit, req_type: kind_a };
    let b = CacheKey { city_id, temperature_fmt: unit, req_type: kind_b };
    lemma_code_injective(a, b);
}

} // verus!
