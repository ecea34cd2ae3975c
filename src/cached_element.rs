use vstd::prelude::*;

use std::time::UNIX_EPOCH;

verus! {

/// `now + ttl`, held at the largest representable instant when it would
/// overflow.
pub open spec fn expiry_time(now: u128, ttl: u128) -> u128 {
    if now + ttl > u128::MAX {
        u128::MAX
    } else {
        (now + ttl) as u128
    }
}

/// Relies on `SystemTime::elapsed` on `UNIX_EPOCH`: the wall-clock time in
/// milliseconds since the Unix epoch, or `None` when the clock is set before
/// the epoch. Nothing is assumed of the value: the clock may even go back.
#[verifier::external_body]
fn epoch_millis() -> (r: Option<u128>) {
    match UNIX_EPOCH.elapsed() {
        Ok(d) => Some(d.as_millis()),
        Err(_) => None,
    }
}

/// The current wall-clock time in milliseconds since the Unix epoch; a clock
/// set before the epoch counts as the epoch itself.
pub fn now_millis() -> (r: u128) {
    match epoch_millis() {
        Some(t) => t,
        None => 0,
    }
}

/// A value paired with the instant (milliseconds since the Unix epoch) at
/// which it stops being valid. The instant is fixed when the entry is made.
pub struct CachedElement<T> {
    pub element: T,
    pub expires_at: u128,
}

impl<T> CachedElement<T> {
    /// The entry has expired at instant `now`.
    pub open spec fn expired_at(&self, now: u128) -> bool {
        now >= self.expires_at
    }

    /// An entry that lives `object_expiry_milis` milliseconds from now.
    pub fn new(element: T, object_expiry_milis: u128) -> (r: Self)
        ensures
            r.element == element,
            exists|now: u128| r.expires_at == expiry_time(now, object_expiry_milis),
    {
        Self::new_at(element, object_expiry_milis, now_millis())
    }

    /// An entry made at instant `now` that lives `object_expiry_milis`
    /// milliseconds.
    pub fn new_at(element: T, object_expiry_milis: u128, now: u128) -> (r: Self)
        ensures
            r.element == element,
            r.expires_at == expiry_time(now, object_expiry_milis),
    {
        CachedElement { element, expires_at: Self::generate_expiry_time(object_expiry_milis, now) }
    }

    /// Whether the entry has expired by the clock.
    pub fn has_expired(&self) -> (r: bool)
        ensures
            exists|now: u128| r == self.expired_at(now),
            self.expires_at == 0 ==> r,
    {
        self.has_expired_at(now_millis())
    }

    /// Whether the entry has expired at instant `now`.
    pub fn has_expired_at(&self, now: u128) -> (r: bool)
        ensures
            r == self.expired_at(now),
    {
        now >= self.expires_at
    }

    fn generate_expiry_time(expiry_milis: u128, now: u128) -> (r: u128)
        ensures
            r == expiry_time(now, expiry_milis),
    {
        now.saturating_add(expiry_milis)
    }
}

/// An entry made with no time to live has expired at the instant it is made,
/// and at every later instant.
pub proof fn lemma_zero_ttl_expired<T>(e: CachedElement<T>, made: u128, later: u128)
    requires
        e.expires_at == expiry_time(made, 0),
        made <= later,
    ensures
        e.expired_at(made),
        e.expired_at(later),
{
}

/// An entry made with a positive time to live has not expired when it is made
/// (unless no later instant is representable), and has expired once that much
/// time has elapsed.
pub proof fn lemma_positive_ttl_lifetime<T>(e: CachedElement<T>, made: u128, ttl: u128, later: u128)
    requires
        ttl > 0,
        made < u128::MAX,
        e.expires_at == expiry_time(made, ttl),
        later >= made + ttl,
    ensures
        !e.expired_at(made),
        e.expired_at(later),
{
}

} // verus!
