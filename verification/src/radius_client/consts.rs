//! Attribute-type numbers and coded values that only the EAP client uses.

use vstd::prelude::*;

verus! {

/// `EAP-Message` (RFC 3579): repeated, each of at most 253 octets.
pub const EAP_MESSAGE: u8 = 79;

/// `Message-Authenticator` (RFC 3579).
pub const MESSAGE_AUTHENTICATOR: u8 = 80;

/// `NAS-Port-Id` (RFC 2869).
pub const NAS_PORT_ID: u8 = 87;

/// `Tunnel-Private-Group-ID` (RFC 2868): carries the assigned VLAN.
pub const TUNNEL_PRIVATE_GROUP_ID: u8 = 81;

/// Largest value an `EAP-Message` (or any) attribute can carry: 255-octet TLV
/// minus the 2-octet type/length header.
pub const MAX_ATTR_VALUE: usize = 253;

/// `Service-Type = Framed`, used for 802.1X.
pub const SERVICE_TYPE_FRAMED: u32 = 2;

/// `Service-Type = Call-Check`, used for MAC Authentication Bypass.
pub const SERVICE_TYPE_CALL_CHECK: u32 = 10;

/// `NAS-Port-Type = Ethernet`.
pub const NAS_PORT_TYPE_ETHERNET: u32 = 15;

/// The largest octet that is a tag at the front of a tagged attribute (RFC 2868),
/// not part of its value.
pub const MAX_TAG_OCTET: u8 = 0x1F;

/// `Tunnel-Type = VLAN` (RFC 3580).
pub const TUNNEL_TYPE_VLAN: u32 = 13;

/// `Tunnel-Medium-Type = 802` (RFC 3580).
pub const TUNNEL_MEDIUM_802: u32 = 6;

} // verus!
