//! A map from types to values: at most one value of each type, stored without
//! its type and handed back with it.
//!
//! A [`TypeMap`] is made for a bound, the `A` parameter, which says what the
//! map asks of the types it takes: nothing ([`PlainAny`]), `Debug`
//! ([`DebugAny`]) or `Clone` ([`CloneAny`]).

pub mod cell;
pub mod internals;
pub mod key;
pub mod laws;
pub mod map;

pub use crate::internals::{CloneAny, DebugAny, Implements, PlainAny};
pub use crate::key::TypeKey;
pub use crate::map::TypeMap;
