//! In-memory stores with the atomic primitives the engines rely on: a
//! card store whose conditional update is the compare-and-swap that makes
//! activation happen at most once, and a credential store with unique
//! usernames.

pub mod cards;
pub mod users;
