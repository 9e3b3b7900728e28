//! A minimal host-telemetry notification service: typed event records,
//! a self-describing key-value payload codec, a periodic-tick schedule,
//! a model of broadcast signal delivery over a named bus, and the
//! publisher/subscriber control logic that ties them together.
//!
//! The bus transport itself (connection handshake, name registration on a
//! real message broker, wire encoding) and the host metrics source are
//! external capabilities; a thin unverified binary wires them to the
//! functions of this crate.

pub mod errors;
pub mod bus;
pub mod codec;
pub mod events;
pub mod publisher;
pub mod subscriber;
pub mod tick;
