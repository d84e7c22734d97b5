//! Static per-port configuration the state machine reads: host mode, timers, and
//! the optional MAB and fallback-VLAN behaviors.

use crate::bytes::option_view;
use crate::text::copy_optional_text;
use vstd::prelude::*;

verus! {

/// How many independent supplicants a single physical port admits, and how
/// authorization is scoped (IEEE 802.1X-2020 section 12.4).
#[derive(Debug, Clone, Copy, PartialEq, Eq, Structural)]
pub enum HostMode {
    /// Exactly one MAC may authenticate; a second source MAC is denied without
    /// disturbing the first.
    SingleHost,
    /// The first MAC to authenticate opens the port for all MACs.
    MultiHost,
    /// Each MAC authenticates independently and gets its own authorization.
    MultiAuth,
    /// One data MAC plus one voice MAC, each authenticated independently.
    MultiDomain,
}

/// Authenticator timers, in seconds (IEEE 802.1X-2020 section 12.8 defaults).
#[derive(Debug, Clone, Copy, PartialEq, Eq, Structural)]
pub struct Timers {
    /// Gap between EAP-Request/Identity transmissions while connecting.
    pub tx_period: u32,
    /// How long a port stays held after an authentication failure.
    pub held_period: u32,
    /// Interval between periodic re-authentications (when enabled).
    pub reauth_period: u32,
    /// How long to wait for the authentication server before declaring it
    /// unreachable.
    pub server_timeout: u32,
    /// How long to wait for a supplicant response to a relayed challenge.
    pub supp_timeout: u32,
}

/// The default timer durations.
pub open spec fn default_timers() -> Timers {
    Timers { tx_period: 30, held_period: 60, reauth_period: 3600, server_timeout: 30, supp_timeout: 30 }
}

impl Default for Timers {
    fn default() -> (r: Self)
        ensures
            r == default_timers(),
    {
        Timers { tx_period: 30, held_period: 60, reauth_period: 3600, server_timeout: 30, supp_timeout: 30 }
    }
}

/// The kinds of timer the machine arms.
#[derive(Debug, Clone, Copy, PartialEq, Eq, Hash, Structural)]
pub enum TimerKind {
    /// Re-send EAP-Request/Identity while connecting.
    TxPeriod,
    /// Quiet/held period after a failure before retrying.
    Held,
    /// Periodic re-authentication of an authorized session.
    Reauth,
    /// Authentication-server response deadline.
    ServerTimeout,
    /// Supplicant response deadline for a relayed challenge.
    SuppTimeout,
    /// Session lifetime from a RADIUS `Session-Timeout`.
    SessionTimeout,
}

/// Per-port configuration.
#[derive(Debug)]
pub struct PaeConfig {
    /// Port operating mode.
    pub host_mode: HostMode,
    /// Timer durations.
    pub timers: Timers,
    /// Number of EAP-Request/Identity transmissions before falling back to MAB
    /// or the guest VLAN.
    pub max_reauth_req: u32,
    /// Whether periodic re-authentication is armed after a successful auth.
    pub reauth_enabled: bool,
    /// Attempt MAC Authentication Bypass when no supplicant appears.
    pub mab_enabled: bool,
    /// VLAN for endpoints with no supplicant and no MAB success.
    pub guest_vlan: Option<String>,
    /// VLAN applied on an `Access-Reject` (instead of staying unauthorized).
    pub auth_fail_vlan: Option<String>,
    /// VLAN applied when the authentication server is unreachable. This is the
    /// one deliberately non-fail-closed path; `None` keeps the port closed.
    pub critical_vlan: Option<String>,
}

/// What a port configuration says.
#[verifier::ext_equal]
pub struct ConfigView {
    pub host_mode: HostMode,
    pub timers: Timers,
    pub max_reauth_req: u32,
    pub reauth_enabled: bool,
    pub mab_enabled: bool,
    pub guest_vlan: Option<Seq<char>>,
    pub auth_fail_vlan: Option<Seq<char>>,
    pub critical_vlan: Option<Seq<char>>,
}

impl View for PaeConfig {
    type V = ConfigView;

    open spec fn view(&self) -> ConfigView {
        ConfigView {
            host_mode: self.host_mode,
            timers: self.timers,
            max_reauth_req: self.max_reauth_req,
            reauth_enabled: self.reauth_enabled,
            mab_enabled: self.mab_enabled,
            guest_vlan: option_view(self.guest_vlan),
            auth_fail_vlan: option_view(self.auth_fail_vlan),
            critical_vlan: option_view(self.critical_vlan),
        }
    }
}

impl Clone for PaeConfig {
    fn clone(&self) -> (r: Self)
        ensures
            r@ == self@,
    {
        PaeConfig {
            host_mode: self.host_mode,
            timers: self.timers,
            max_reauth_req: self.max_reauth_req,
            reauth_enabled: self.reauth_enabled,
            mab_enabled: self.mab_enabled,
            guest_vlan: copy_optional_text(&self.guest_vlan),
            auth_fail_vlan: copy_optional_text(&self.auth_fail_vlan),
            critical_vlan: copy_optional_text(&self.critical_vlan),
        }
    }
}

impl Default for PaeConfig {
    /// A secure-by-default port: multi-auth, no MAB, no fallback VLANs, periodic
    /// re-auth on. Every fail-open behavior is opt-in.
    fn default() -> (r: Self)
        ensures
            r@ == (ConfigView {
                host_mode: HostMode::MultiAuth,
                timers: default_timers(),
                max_reauth_req: 2,
                reauth_enabled: true,
                mab_enabled: false,
                guest_vlan: None,
                auth_fail_vlan: None,
                critical_vlan: None,
            }),
    {
        PaeConfig {
            host_mode: HostMode::MultiAuth,
            timers: Timers::default(),
            max_reauth_req: 2,
            reauth_enabled: true,
            mab_enabled: false,
            guest_vlan: None,
            auth_fail_vlan: None,
            critical_vlan: None,
        }
    }
}

} // verus!
