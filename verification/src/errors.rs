//! The error taxonomy of the platform. Lifecycle and authorization
//! outcomes are first-class variants, not faults; store and hashing
//! failures are wrapped, never retried.

use crate::models::Card;
use vstd::prelude::*;

verus! {

#[derive(Debug)]
pub enum AppError {
    /// No record matches, or the caller may not see the one that does.
    NotFound,
    /// The card was already activated; carries the current record when
    /// the caller had read it.
    AlreadyActivated(Option<Card>),
    /// The card's validity window has elapsed; carries the record for
    /// display.
    Expired(Card),
    /// The presented token's signature does not match, or the token is
    /// malformed.
    InvalidSignature,
    /// The presented token's expiry has passed.
    TokenExpired,
    /// A newer token has since been issued for the same subject.
    Superseded,
    /// The token's subject no longer exists.
    UnknownSubject,
    /// The caller lacks the required role.
    Unauthorized,
    /// Malformed input, e.g. an unparseable identifier.
    ValidationError,
    /// A store-level failure.
    PersistenceError,
    /// A password-hashing failure.
    HashingError,
}

} // verus!
