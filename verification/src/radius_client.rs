//! The EAP-over-RADIUS client: what a session asks of the authentication server
//! becomes RADIUS packets, and the server's replies become session events.
//!
//! EAP is fragmented and reassembled byte for byte, so that a tunnel inside it is
//! never re-encoded. An identity that is unfit for a `User-Name` is refused rather
//! than forwarded, and a reply has to pass [`reply::verify_reply`] before it is
//! parsed. The keyed digests themselves are computed by the caller; what they
//! cover and how they are compared is decided here.

pub mod accounting;
pub mod consts;
pub mod context;
pub mod eap_message;
pub mod error;
pub mod laws;
pub mod reply;
pub mod request;
pub mod sanitize;

pub use accounting::accounting_request;
pub use context::RequestContext;
pub use error::RadiusClientError;
pub use reply::{extract_state, parse_authorization, parse_reply, verify_reply};
pub use request::{access_request_eap, access_request_mab};
