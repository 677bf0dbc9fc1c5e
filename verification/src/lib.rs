//! A telemetry relay: a fixed-layout binary codec for telemetry records, a
//! bounded broadcast hub, and the state machines that drive the upstream
//! feed, the subscriber sessions and the relay's supervisor.
//!
//! Everything here is synchronous and free of I/O. A driver performs the
//! actions that the state machines ask for and reports back what happened.

pub mod codec;
pub mod fanout;
pub mod feed;
pub mod hub;
pub mod session;
pub mod shutdown;
pub mod supervisor;
