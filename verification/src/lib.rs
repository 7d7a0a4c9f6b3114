//! Verified core of the compact-proof injector: persisted runtime state,
//! rate-limited send scheduling, proof caching, message framing and the
//! bookkeeping that matches announcements with inbound proof requests.

pub mod in_flight;
pub mod metrics;
pub mod config;
pub mod archive;
pub mod wire;
pub mod bytes;
pub mod messages;
pub mod proofs;
pub mod peer;
pub mod pending;
pub mod strings;
pub mod injector;
pub mod testing;
