//! The authenticator daemon's own decisions: configuration, RADIUS correlation per
//! session, timer durations, and what each effect of the state machine asks of the
//! boundaries around it.

pub mod config;
pub mod dispatch;
pub mod error;
pub mod laws;
pub mod session;
pub mod timers;
pub mod worker;

pub use config::{AuthdConfig, ConfigError, PortConfig, RadiusConfig};
pub use dispatch::Orchestrator;
pub use error::AuthdError;
pub use session::RadiusSession;
