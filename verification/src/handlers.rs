//! The operations exposed to the routing layer: card lifecycle on one
//! side, account management and login on the other.

pub mod card;
pub mod user;
