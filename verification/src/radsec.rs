//! RADIUS over TLS: the locked crypto policy, the client configuration built under
//! it, and the framing of packets on the byte stream (RFC 6614).

pub mod client;
pub mod error;
pub mod fips;
pub mod framing;
pub mod tls;

pub use error::RadSecError;
pub use tls::client_config;
