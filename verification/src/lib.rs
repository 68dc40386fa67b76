//! Local identity and session authentication engine.
//!
//! The library creates one durable cryptographic identity per installation,
//! protects its private signing key at rest with authenticated encryption,
//! proves possession of that key through a signed challenge, and issues
//! time-bounded sessions. File, clock and randomness access at the
//! application's edge hand plain values in and take plain values back.

pub mod errors;
pub mod identity;
pub mod manager;
pub mod session;
pub mod signing;
pub mod store;
pub mod vault;
