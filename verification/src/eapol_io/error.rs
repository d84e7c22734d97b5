//! Errors from the EAPOL raw-socket layer.

use crate::text::{decimal, numbered, prefixed, quoted, quoted_text, wrapped};
use vstd::prelude::*;
use vstd::string::to_string_from_display_ensures;

verus! {

/// `std::io::Error`, carried through unread.
#[verifier::external_type_specification]
#[verifier::external_body]
pub struct ExIoError(std::io::Error);

/// Why the EAPOL socket layer failed.
#[derive(Debug)]
pub enum EapolError {
    /// The interface name is empty, too long for the kernel, or contains a NUL.
    InvalidInterfaceName(String),
    /// The interface could not be resolved to an index.
    InterfaceNotFound(String),
    /// A socket call failed.
    Io(std::io::Error),
    /// A frame too short to be a valid Ethernet frame was to be sent.
    FrameTooShort(usize),
}

impl From<std::io::Error> for EapolError {
    fn from(e: std::io::Error) -> (r: Self) {
        EapolError::Io(e)
    }
}

impl vstd::std_specs::convert::FromSpecImpl<std::io::Error> for EapolError {
    open spec fn obeys_from_spec() -> bool {
        true
    }

    open spec fn from_spec(e: std::io::Error) -> Self {
        EapolError::Io(e)
    }
}

impl EapolError {
    /// Whether `text` is what the error says. Behind an I/O error's prefix stands that
    /// error's own text.
    pub open spec fn says(self, text: Seq<char>) -> bool {
        match self {
            EapolError::InvalidInterfaceName(n) => text == "invalid interface name "@ + quoted_text(n@),
            EapolError::InterfaceNotFound(n) => text == "interface "@ + quoted_text(n@)
                + " not found"@,
            EapolError::Io(e) => exists|cause: String| #[trigger]
                to_string_from_display_ensures::<std::io::Error>(&e, cause) && text
                    == "socket I/O error: "@ + cause@,
            EapolError::FrameTooShort(n) => text == "frame too short to send: "@ + decimal(n as nat)
                + " octets"@,
        }
    }

    /// What the error says, for a log.
    pub fn message(&self) -> (r: String)
        ensures
            self.says(r@),
    {
        match self {
            EapolError::InvalidInterfaceName(n) => {
                let name = quoted(n.as_str());
                prefixed("invalid interface name ", name.as_str())
            },
            EapolError::InterfaceNotFound(n) => {
                let name = quoted(n.as_str());
                wrapped("interface ", name.as_str(), " not found")
            },
            EapolError::Io(e) => {
                let cause = e.to_string();
                prefixed("socket I/O error: ", cause.as_str())
            },
            EapolError::FrameTooShort(n) => numbered("frame too short to send: ", *n, " octets"),
        }
    }
}

} // verus!
