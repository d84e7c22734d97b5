//! The IEEE 802.1X-2020 authenticator: a deterministic, event-driven model of one
//! supplicant session ([`session::PortSession`]) and the per-port host-mode logic
//! that multiplexes sessions ([`port::PortPae`]).
//!
//! The machine maps a state and an event to an ordered list of effects. It fails
//! closed: the only way to open a port is an explicit `Access-Accept`, and every
//! unhandled pair of state and event changes nothing. It never inspects EAP
//! method content.

pub mod config;
pub mod effect;
pub mod event;
pub mod host_modes;
pub mod laws;
pub mod outcomes;
pub mod port;
pub mod session;

pub use config::{HostMode, PaeConfig, TimerKind, Timers};
pub use effect::{
    AcctTrigger, Authorization, Effect, FallbackReason, PortAuthorization, TerminateCause,
};
pub use event::{Event, InboundEap};
pub use port::{DirectedEffect, PortPae};
pub use session::{PortSession, State};
