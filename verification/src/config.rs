//! Process-wide configuration, constructed once at startup and passed by
//! reference into the token authority and the card lifecycle engine.

use vstd::prelude::*;

verus! {

/// Timestamps are seconds since the Unix epoch. Keeping them at or below
/// this bound (the last second of year 9999) keeps every piece of expiry
/// arithmetic inside `i64`.
pub const MAX_TIMESTAMP: i64 = 253402300799;

pub const SECONDS_PER_DAY: i64 = 86400;

pub const SECONDS_PER_HOUR: i64 = 3600;

/// Upper bound on the configured token lifetime, in hours.
pub const MAX_TTL_HOURS: i64 = 1000000;

pub struct AppConfig {
    /// Signing secret for bearer tokens.
    pub jwt_secret: Vec<u8>,
    /// Token lifetime in hours.
    pub jwt_expiration_hours: i64,
    /// Length of a generated card code, in characters.
    pub card_length: usize,
}

impl AppConfig {
    pub open spec fn wf(&self) -> bool {
        0 < self.jwt_expiration_hours <= MAX_TTL_HOURS
    }

    pub fn new(jwt_secret: Vec<u8>, jwt_expiration_hours: i64, card_length: usize) -> (r:
        AppConfig)
        requires
            0 < jwt_expiration_hours <= MAX_TTL_HOURS,
        ensures
            r.wf(),
            r.jwt_secret == jwt_secret,
            r.jwt_expiration_hours == jwt_expiration_hours,
            r.card_length == card_length,
    {
        AppConfig { jwt_secret, jwt_expiration_hours, card_length }
    }
}

} // verus!
