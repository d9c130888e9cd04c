//! Data model of the card platform: cards and the request payloads of the
//! card routes. User records live in [`user`].

pub mod user;

use crate::config::{MAX_TIMESTAMP, SECONDS_PER_DAY};
use vstd::prelude::*;

verus! {

/// Request to generate a batch of cards.
pub struct CreateCardRequest {
    pub duration_days: i32,
    pub count: i32,
}

/// Default batch size when a generation request does not name one.
pub fn default_count() -> (r: i32)
    ensures
        r == 1,
{
    1
}

/// Request to activate the card with the given code.
pub struct ActivateCardRequest {
    pub card_number: String,
}

/// Request to verify (and on first use, activate) the card with the given
/// code; the identifier is a free-form device or session marker.
pub struct VerifyCardRequest {
    pub card_number: String,
    pub user_identifier: Option<String>,
}

/// A single-use redemption code. `card_number` is the natural key; the
/// record is created unactivated and flips to activated exactly once.
#[derive(Debug)]
pub struct Card {
    /// Store-assigned identifier; absent until the card is persisted.
    pub id: Option<u64>,
    pub card_number: String,
    pub duration_days: i32,
    pub is_activated: bool,
    pub activated_at: Option<i64>,
    pub expires_at: Option<i64>,
    pub created_at: i64,
    pub created_by: Option<u64>,
    pub created_by_username: Option<String>,
    pub used_by: Option<u64>,
    pub used_by_identifier: Option<String>,
}

pub(crate) fn clone_opt_string(s: &Option<String>) -> (r: Option<String>)
    ensures
        r == *s,
{
    match s {
        Some(t) => Some(t.clone()),
        None => None,
    }
}

impl Card {
    /// Structural invariant: activation stamps `activated_at` and
    /// `expires_at` together, and the expiry is exactly the activation
    /// instant plus the validity window.
    pub open spec fn wf(self) -> bool {
        &&& 0 <= self.created_at <= MAX_TIMESTAMP
        &&& (self.is_activated <==> self.activated_at is Some)
        &&& (self.is_activated <==> self.expires_at is Some)
        &&& (self.is_activated ==> {
            &&& 0 <= self.activated_at->0 <= MAX_TIMESTAMP
            &&& self.expires_at->0 == self.activated_at->0 + self.duration_days as int * (
            SECONDS_PER_DAY as int)
        })
    }

    /// The record after activation at `now`, attributed to `used_by` /
    /// `used_by_identifier`; everything else is unchanged.
    pub open spec fn activated_spec(
        self,
        now: i64,
        used_by: Option<u64>,
        used_by_identifier: Option<String>,
    ) -> Card {
        Card {
            is_activated: true,
            activated_at: Some(now),
            expires_at: Some(
                (now + self.duration_days as int * (SECONDS_PER_DAY as int)) as i64,
            ),
            used_by,
            used_by_identifier,
            ..self
        }
    }

    pub fn new(card_number: String, duration_days: i32, now: i64) -> (r: Card)
        requires
            0 <= now <= MAX_TIMESTAMP,
        ensures
            r == (Card {
                id: None,
                card_number,
                duration_days,
                is_activated: false,
                activated_at: None,
                expires_at: None,
                created_at: now,
                created_by: None,
                created_by_username: None,
                used_by: None,
                used_by_identifier: None,
            }),
            r.wf(),
    {
        Card {
            id: None,
            card_number,
            duration_days,
            is_activated: false,
            activated_at: None,
            expires_at: None,
            created_at: now,
            created_by: None,
            created_by_username: None,
            used_by: None,
            used_by_identifier: None,
        }
    }

    /// The same record, activated at `now`.
    pub fn with_activation(&self, now: i64, used_by: Option<u64>, used_by_identifier: Option<
        String,
    >) -> (r: Card)
        requires
            0 <= now <= MAX_TIMESTAMP,
        ensures
            r == self.activated_spec(now, used_by, used_by_identifier),
    {
        let expires_at: i64 = now + (self.duration_days as i64) * SECONDS_PER_DAY;
        Card {
            id: self.id,
            card_number: self.card_number.clone(),
            duration_days: self.duration_days,
            is_activated: true,
            activated_at: Some(now),
            expires_at: Some(expires_at),
            created_at: self.created_at,
            created_by: self.created_by,
            created_by_username: clone_opt_string(&self.created_by_username),
            used_by,
            used_by_identifier,
        }
    }

    /// A field-for-field copy.
    pub fn duplicate(&self) -> (r: Card)
        ensures
            r == *self,
    {
        Card {
            id: self.id,
            card_number: self.card_number.clone(),
            duration_days: self.duration_days,
            is_activated: self.is_activated,
            activated_at: self.activated_at,
            expires_at: self.expires_at,
            created_at: self.created_at,
            created_by: self.created_by,
            created_by_username: clone_opt_string(&self.created_by_username),
            used_by: self.used_by,
            used_by_identifier: clone_opt_string(&self.used_by_identifier),
        }
    }
}

} // verus!
