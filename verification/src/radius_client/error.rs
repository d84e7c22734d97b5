//! Errors produced while building or parsing RADIUS packets.

use crate::radius::packet::PacketError;
use crate::text::{decimal, prefixed, push_decimal};
use vstd::prelude::*;

verus! {

/// Why a request cannot be built, or a reply cannot be used.
#[derive(Debug, Clone, Copy, PartialEq, Eq, Structural)]
pub enum RadiusClientError {
    /// An attribute or a packet does not fit the wire format.
    Proto(PacketError),
    /// An EAP identity cannot be used as a `User-Name`: empty, too long, not valid
    /// UTF-8, or containing control or line-separator characters.
    InvalidUserName,
    /// There is no EAP packet to relay.
    EmptyEapRelay,
    /// A reply had a code that is not expected on the authentication path.
    UnexpectedReplyCode(u8),
    /// An `Access-Challenge` carried no `EAP-Message` to relay.
    MissingEapMessage,
    /// A VLAN assignment that is not of type VLAN on medium 802.
    MalformedVlanAssignment,
}

impl From<PacketError> for RadiusClientError {
    fn from(e: PacketError) -> (r: Self) {
        RadiusClientError::Proto(e)
    }
}

impl vstd::std_specs::convert::FromSpecImpl<PacketError> for RadiusClientError {
    open spec fn obeys_from_spec() -> bool {
        true
    }

    open spec fn from_spec(e: PacketError) -> Self {
        RadiusClientError::Proto(e)
    }
}

impl RadiusClientError {
    /// What the error says.
    pub open spec fn text(self) -> Seq<char> {
        match self {
            RadiusClientError::Proto(e) => "RADIUS codec error: "@ + e.text(),
            RadiusClientError::InvalidUserName =>
                "EAP identity is not a valid User-Name (empty/long/control chars)"@,
            RadiusClientError::EmptyEapRelay => "no EAP packet to relay"@,
            RadiusClientError::UnexpectedReplyCode(c) => "unexpected RADIUS reply code "@ + decimal(
                c as nat,
            ),
            RadiusClientError::MissingEapMessage => "Access-Challenge carried no EAP-Message"@,
            RadiusClientError::MalformedVlanAssignment =>
                "VLAN assignment is not of type VLAN on medium 802"@,
        }
    }

    /// What the error says, for a log.
    pub fn message(&self) -> (r: String)
        ensures
            r@ == self.text(),
    {
        match *self {
            RadiusClientError::Proto(e) => {
                let cause = e.message();
                prefixed("RADIUS codec error: ", cause.as_str())
            },
            RadiusClientError::InvalidUserName =>
                "EAP identity is not a valid User-Name (empty/long/control chars)".to_owned(),
            RadiusClientError::EmptyEapRelay => "no EAP packet to relay".to_owned(),
            RadiusClientError::UnexpectedReplyCode(c) => {
                let mut out = "unexpected RADIUS reply code ".to_owned();
                push_decimal(&mut out, c as u64);
                out
            },
            RadiusClientError::MissingEapMessage =>
                "Access-Challenge carried no EAP-Message".to_owned(),
            RadiusClientError::MalformedVlanAssignment =>
                "VLAN assignment is not of type VLAN on medium 802".to_owned(),
        }
    }
}

} // verus!
