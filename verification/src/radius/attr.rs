//! Attribute type numbers (RFC 2865, 2866, 2868, 2869, 3579).

use vstd::prelude::*;

verus! {

/// `User-Name`.
pub const USER_NAME: u8 = 1;

/// `NAS-IP-Address`.
pub const NAS_IP_ADDRESS: u8 = 4;

/// `NAS-Port`.
pub const NAS_PORT: u8 = 5;

/// `Service-Type`.
pub const SERVICE_TYPE: u8 = 6;

/// `Filter-Id`.
pub const FILTER_ID: u8 = 11;

/// `State`.
pub const STATE: u8 = 24;

/// `Class`.
pub const CLASS: u8 = 25;

/// `Session-Timeout`.
pub const SESSION_TIMEOUT: u8 = 27;

/// `Called-Station-Id`.
pub const CALLED_STATION_ID: u8 = 30;

/// `Calling-Station-Id`.
pub const CALLING_STATION_ID: u8 = 31;

/// `NAS-Identifier`.
pub const NAS_IDENTIFIER: u8 = 32;

/// `Acct-Status-Type`.
pub const ACCT_STATUS_TYPE: u8 = 40;

/// `Acct-Session-Id`.
pub const ACCT_SESSION_ID: u8 = 44;

/// `Acct-Terminate-Cause`.
pub const ACCT_TERMINATE_CAUSE: u8 = 49;

/// `NAS-Port-Type`.
pub const NAS_PORT_TYPE: u8 = 61;

/// `Tunnel-Type`.
pub const TUNNEL_TYPE: u8 = 64;

/// `Tunnel-Medium-Type`.
pub const TUNNEL_MEDIUM_TYPE: u8 = 65;

} // verus!
