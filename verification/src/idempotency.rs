//! The idempotency guard: keys, saved responses and the claim protocol.

pub mod key;
pub mod persistence;
