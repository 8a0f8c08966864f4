//! Dataplane core of a sidecar proxy: classification of accepted connections,
//! routing of requests to per-destination service stacks, load balancing over
//! discovered endpoints, telemetry hooks and cooperative shutdown.
//!
//! Everything here is a decision: a function from state and event to the next
//! state and the action to take. Sockets, timers and tasks belong to the
//! program that drives these functions.

pub mod addr;
pub mod backoff;
pub mod balancer;
mod chance;
pub mod config;
pub mod drain;
pub mod key;
pub mod lifecycle;
pub mod listener;
pub mod ports;
pub mod protocol;
pub mod router;
pub mod server;
pub mod stack;
pub mod status;
pub mod telemetry;
pub mod timeout;
pub mod tunnel;

pub use lifecycle::Main;
