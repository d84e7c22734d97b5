//! Errors from the `RadSec` transport.

use crate::radius::packet::PacketError;
use crate::text::{decimal, numbered, prefixed, push_decimal};
use vstd::prelude::*;
use vstd::string::to_string_from_display_ensures;

verus! {

/// `rustls::Error`, carried through unread.
#[verifier::external_type_specification]
#[verifier::external_body]
pub struct ExTlsError(rustls::Error);

/// Why the `RadSec` transport failed.
#[derive(Debug)]
pub enum RadSecError {
    /// Underlying socket / TLS I/O error.
    Io(std::io::Error),
    /// rustls configuration or handshake error.
    Tls(rustls::Error),
    /// The crypto provider is not FIPS-validated.
    NotFips,
    /// The offered crypto policy is not the locked one: key exchange must be
    /// ML-KEM-1024 only and the cipher suite `TLS_AES_256_GCM_SHA384`.
    CryptoPolicyViolation,
    /// A PEM input held no usable certificate or private key.
    NoCredential,
    /// A RADIUS frame declared a length outside the valid 20..=4096 range.
    BadFrameLength(usize),
    /// The framed bytes did not decode as a RADIUS packet.
    Proto(PacketError),
    /// A DNS name for the server certificate was invalid.
    BadServerName,
    /// The server did not answer in time.
    Timeout,
    /// The reply's Identifier is not the request's.
    UnexpectedReply {
        /// The Identifier of the request.
        expected: u8,
        /// The Identifier of the reply.
        got: u8,
    },
}

impl From<std::io::Error> for RadSecError {
    fn from(e: std::io::Error) -> (r: Self) {
        RadSecError::Io(e)
    }
}

impl vstd::std_specs::convert::FromSpecImpl<std::io::Error> for RadSecError {
    open spec fn obeys_from_spec() -> bool {
        true
    }

    open spec fn from_spec(e: std::io::Error) -> Self {
        RadSecError::Io(e)
    }
}

impl From<rustls::Error> for RadSecError {
    fn from(e: rustls::Error) -> (r: Self) {
        RadSecError::Tls(e)
    }
}

impl vstd::std_specs::convert::FromSpecImpl<rustls::Error> for RadSecError {
    open spec fn obeys_from_spec() -> bool {
        true
    }

    open spec fn from_spec(e: rustls::Error) -> Self {
        RadSecError::Tls(e)
    }
}

impl From<PacketError> for RadSecError {
    fn from(e: PacketError) -> (r: Self) {
        RadSecError::Proto(e)
    }
}

impl vstd::std_specs::convert::FromSpecImpl<PacketError> for RadSecError {
    open spec fn obeys_from_spec() -> bool {
        true
    }

    open spec fn from_spec(e: PacketError) -> Self {
        RadSecError::Proto(e)
    }
}

impl RadSecError {
    /// Whether `text` is what the error says. Behind an I/O or TLS error's prefix
    /// stands that error's own text.
    pub open spec fn says(self, text: Seq<char>) -> bool {
        match self {
            RadSecError::Io(e) => exists|cause: String| #[trigger]
                to_string_from_display_ensures::<std::io::Error>(&e, cause) && text
                    == "I/O error: "@ + cause@,
            RadSecError::Tls(e) => exists|cause: String| #[trigger]
                to_string_from_display_ensures::<rustls::Error>(&e, cause) && text
                    == "TLS error: "@ + cause@,
            RadSecError::NotFips => text == "crypto provider is not FIPS-validated"@,
            RadSecError::CryptoPolicyViolation => text
                == "crypto policy is not ML-KEM-1024 + TLS_AES_256_GCM_SHA384 only"@,
            RadSecError::NoCredential => text == "PEM held no usable certificate or key"@,
            RadSecError::BadFrameLength(n) => text == "RADIUS frame length "@ + decimal(n as nat)
                + " outside 20..=4096"@,
            RadSecError::Proto(e) => text == "RADIUS codec error: "@ + e.text(),
            RadSecError::BadServerName => text == "invalid server DNS name"@,
            RadSecError::Timeout => text == "the server did not answer in time"@,
            RadSecError::UnexpectedReply { expected, got } => text
                == "reply identifier mismatch: expected "@ + decimal(expected as nat) + ", got "@
                + decimal(got as nat),
        }
    }

    /// What the error says, for a log.
    pub fn message(&self) -> (r: String)
        ensures
            self.says(r@),
    {
        match self {
            RadSecError::Io(e) => {
                let cause = e.to_string();
                prefixed("I/O error: ", cause.as_str())
            },
            RadSecError::Tls(e) => {
                let cause = e.to_string();
                prefixed("TLS error: ", cause.as_str())
            },
            RadSecError::NotFips => "crypto provider is not FIPS-validated".to_owned(),
            RadSecError::CryptoPolicyViolation =>
                "crypto policy is not ML-KEM-1024 + TLS_AES_256_GCM_SHA384 only".to_owned(),
            RadSecError::NoCredential => "PEM held no usable certificate or key".to_owned(),
            RadSecError::BadFrameLength(n) => numbered(
                "RADIUS frame length ",
                *n,
                " outside 20..=4096",
            ),
            RadSecError::Proto(e) => {
                let cause = e.message();
                prefixed("RADIUS codec error: ", cause.as_str())
            },
            RadSecError::BadServerName => "invalid server DNS name".to_owned(),
            RadSecError::Timeout => "the server did not answer in time".to_owned(),
            RadSecError::UnexpectedReply { expected, got } => {
                let mut out = numbered(
                    "reply identifier mismatch: expected ",
                    *expected as usize,
                    ", got ",
                );
                push_decimal(&mut out, *got as u64);
                out
            },
        }
    }
}

} // verus!
