//! A keyed counter store: each owner identity has at most one counter,
//! kept at an address derived from a fixed domain tag and the owner's
//! identity. Every change to a counter is gated on the caller being its owner.
//!
//! Decrementing a counter at zero leaves it at zero: that is the one policy
//! of this store, and `decrement` never fails on account of the count.

pub mod address;
pub mod key;
pub mod laws;
pub mod store;

pub use address::derive_address;
pub use key::Key;
pub use store::{
    close, decrement, increment, initialize, reset, Close, Counter, CounterError, CounterStore,
    Decrement, Increment, Initialize,
};
