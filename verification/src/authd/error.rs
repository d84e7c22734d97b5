//! The daemon's top-level error type.

use super::config::ConfigError;
use crate::eapol_io::error::EapolError;
use crate::pacp::error::PacpError;
use crate::radius_client::error::RadiusClientError;
use crate::radsec::error::RadSecError;
use crate::text::prefixed;
use vstd::prelude::*;

verus! {

/// An error from the authenticator daemon.
#[derive(Debug)]
pub enum AuthdError {
    /// Invalid configuration.
    Config(ConfigError),
    /// Building or parsing a RADIUS packet failed.
    Radius(RadiusClientError),
    /// A RADIUS reply arrived with no request outstanding for the session.
    NoPendingRequest,
    /// A RADIUS reply failed Response/Message-Authenticator verification.
    ReplyVerificationFailed,
    /// The RadSec transport failed.
    RadSec(RadSecError),
    /// The EAPOL socket layer failed.
    Eapol(EapolError),
    /// The dataplane could not be programmed/confirmed (fail closed).
    Enforce(String),
    /// Building an outbound EAPOL frame failed.
    Frame(PacpError),
}

impl From<ConfigError> for AuthdError {
    fn from(e: ConfigError) -> (r: Self) {
        AuthdError::Config(e)
    }
}

impl vstd::std_specs::convert::FromSpecImpl<ConfigError> for AuthdError {
    open spec fn obeys_from_spec() -> bool {
        true
    }

    open spec fn from_spec(e: ConfigError) -> Self {
        AuthdError::Config(e)
    }
}

impl From<RadSecError> for AuthdError {
    fn from(e: RadSecError) -> (r: Self) {
        AuthdError::RadSec(e)
    }
}

impl vstd::std_specs::convert::FromSpecImpl<RadSecError> for AuthdError {
    open spec fn obeys_from_spec() -> bool {
        true
    }

    open spec fn from_spec(e: RadSecError) -> Self {
        AuthdError::RadSec(e)
    }
}

impl From<EapolError> for AuthdError {
    fn from(e: EapolError) -> (r: Self) {
        AuthdError::Eapol(e)
    }
}

impl vstd::std_specs::convert::FromSpecImpl<EapolError> for AuthdError {
    open spec fn obeys_from_spec() -> bool {
        true
    }

    open spec fn from_spec(e: EapolError) -> Self {
        AuthdError::Eapol(e)
    }
}

impl AuthdError {
    /// Whether `text` is what the error says: where it comes from, then the text of
    /// its cause.
    pub open spec fn says(self, text: Seq<char>) -> bool {
        match self {
            AuthdError::Config(e) => text == "config error: "@ + e.text(),
            AuthdError::Radius(e) => text == "RADIUS error: "@ + e.text(),
            AuthdError::NoPendingRequest => text == "RADIUS reply with no outstanding request"@,
            AuthdError::ReplyVerificationFailed => text == "RADIUS reply failed verification"@,
            AuthdError::RadSec(e) => exists|cause: Seq<char>| #[trigger]
                e.says(cause) && text == "RadSec error: "@ + cause,
            AuthdError::Eapol(e) => exists|cause: Seq<char>| #[trigger]
                e.says(cause) && text == "EAPOL socket error: "@ + cause,
            AuthdError::Enforce(e) => text == "enforcement error: "@ + e@,
            AuthdError::Frame(e) => text == "EAPOL frame error: "@ + e.text(),
        }
    }

    /// What the error says, for a log.
    pub fn message(&self) -> (r: String)
        ensures
            self.says(r@),
    {
        match self {
            AuthdError::Config(e) => {
                let cause = e.message();
                prefixed("config error: ", cause.as_str())
            },
            AuthdError::Radius(e) => {
                let cause = e.message();
                prefixed("RADIUS error: ", cause.as_str())
            },
            AuthdError::NoPendingRequest => "RADIUS reply with no outstanding request".to_owned(),
            AuthdError::ReplyVerificationFailed => "RADIUS reply failed verification".to_owned(),
            AuthdError::RadSec(e) => {
                let cause = e.message();
                prefixed("RadSec error: ", cause.as_str())
            },
            AuthdError::Eapol(e) => {
                let cause = e.message();
                prefixed("EAPOL socket error: ", cause.as_str())
            },
            AuthdError::Enforce(e) => prefixed("enforcement error: ", e.as_str()),
            AuthdError::Frame(e) => {
                let cause = e.message();
                prefixed("EAPOL frame error: ", cause.as_str())
            },
        }
    }
}

} // verus!
