//! Keeps DNS A records pointed at this host's current public IPv4 address.
//!
//! The crate holds the decision logic of a dynamic-DNS reconciler: parsing
//! and formatting IPv4 addresses, picking the record that matches a
//! configured name, deciding whether a provider update is needed, collecting
//! per-domain outcomes, and the scheduling state machine that drives repeated
//! cycles until cancellation. All network traffic is performed by the caller,
//! which feeds results back into the state machines defined here.

pub mod errors;
pub mod ip;
pub mod models;
pub mod engine;
pub mod scheduler;
