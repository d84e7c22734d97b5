//! The side effects the state machine asks for. The machine itself does no I/O:
//! a step returns an ordered list of these.

use super::config::TimerKind;
use crate::bytes::{copy_octets, copy_optional_octets, option_view};
use crate::pacp::ethernet::MacAddr;
use crate::text::copy_optional_text;
use vstd::prelude::*;

verus! {

/// Authorization parameters granted by the authentication server, parsed from a
/// RADIUS `Access-Accept`.
#[derive(Debug, PartialEq, Eq)]
pub struct Authorization {
    /// `Tunnel-Private-Group-ID`: VLAN id or name.
    pub vlan: Option<String>,
    /// `Filter-Id`: the name of a pre-provisioned ACL to bind.
    pub filter_id: Option<String>,
    /// `Session-Timeout` in seconds, if present.
    pub session_timeout: Option<u32>,
    /// `Class`: opaque server correlation handle, echoed in accounting.
    pub class: Option<Vec<u8>>,
}

/// What an authorization grants.
#[verifier::ext_equal]
pub struct AuthorizationView {
    pub vlan: Option<Seq<char>>,
    pub filter_id: Option<Seq<char>>,
    pub session_timeout: Option<u32>,
    pub class: Option<Seq<u8>>,
}

impl View for Authorization {
    type V = AuthorizationView;

    open spec fn view(&self) -> AuthorizationView {
        AuthorizationView {
            vlan: option_view(self.vlan),
            filter_id: option_view(self.filter_id),
            session_timeout: self.session_timeout,
            class: option_view(self.class),
        }
    }
}

impl Clone for Authorization {
    fn clone(&self) -> (r: Self)
        ensures
            r@ == self@,
    {
        Authorization {
            vlan: copy_optional_text(&self.vlan),
            filter_id: copy_optional_text(&self.filter_id),
            session_timeout: self.session_timeout,
            class: copy_optional_octets(&self.class),
        }
    }
}

impl Default for Authorization {
    /// Nothing granted beyond the opening itself.
    fn default() -> (r: Self)
        ensures
            r@ == (AuthorizationView { vlan: None, filter_id: None, session_timeout: None, class: None }),
    {
        Authorization { vlan: None, filter_id: None, session_timeout: None, class: None }
    }
}

/// Why a fallback VLAN is being applied.
#[derive(Debug, Clone, Copy, PartialEq, Eq, Structural)]
pub enum FallbackReason {
    /// No supplicant appeared and MAB did not succeed.
    Guest,
    /// The server returned `Access-Reject`.
    AuthFail,
    /// The authentication server was unreachable (deliberate fail-open).
    Critical,
}

/// The authorization state to program for this `{port, MAC}` on the dataplane.
#[derive(Debug, PartialEq, Eq)]
pub enum PortAuthorization {
    /// Authorized with the server-granted parameters.
    Authorized(Authorization),
    /// Restrictive: only EAPOL is permitted; all other traffic dropped.
    Unauthorized,
    /// A fallback VLAN with a stated reason (guest/auth-fail/critical).
    Fallback {
        /// Why the fallback is applied.
        reason: FallbackReason,
        /// The VLAN to place the port in, if one is configured for the reason.
        vlan: Option<String>,
    },
}

/// What an authorization state says.
#[verifier::ext_equal]
pub enum PortAuthorizationView {
    Authorized(AuthorizationView),
    Unauthorized,
    Fallback { reason: FallbackReason, vlan: Option<Seq<char>> },
}

impl View for PortAuthorization {
    type V = PortAuthorizationView;

    open spec fn view(&self) -> PortAuthorizationView {
        match *self {
            PortAuthorization::Authorized(a) => PortAuthorizationView::Authorized(a@),
            PortAuthorization::Unauthorized => PortAuthorizationView::Unauthorized,
            PortAuthorization::Fallback { reason, vlan } => PortAuthorizationView::Fallback {
                reason,
                vlan: option_view(vlan),
            },
        }
    }
}

impl Clone for PortAuthorization {
    fn clone(&self) -> (r: Self)
        ensures
            r@ == self@,
    {
        match self {
            PortAuthorization::Authorized(a) => PortAuthorization::Authorized(a.clone()),
            PortAuthorization::Unauthorized => PortAuthorization::Unauthorized,
            PortAuthorization::Fallback { reason, vlan } => PortAuthorization::Fallback {
                reason: *reason,
                vlan: copy_optional_text(vlan),
            },
        }
    }
}

/// Reason a session ended; becomes a RADIUS `Acct-Terminate-Cause`.
#[derive(Debug, Clone, Copy, PartialEq, Eq, Structural)]
pub enum TerminateCause {
    /// Supplicant sent EAPOL-Logoff.
    SupplicantLogoff,
    /// Port link went down.
    PortLinkDown,
    /// RADIUS `Session-Timeout` expired.
    SessionTimeout,
    /// Server-initiated CoA-Disconnect / administrative reset.
    AdminReset,
    /// Re-authentication failed.
    ReauthFailure,
}

/// RADIUS accounting lifecycle trigger.
#[derive(Debug, Clone, Copy, PartialEq, Eq, Structural)]
pub enum AcctTrigger {
    /// Session authorized: send Accounting-Start.
    Start,
    /// Session ended: send Accounting-Stop with the cause.
    Stop(TerminateCause),
}

/// A single side effect to perform, in order.
#[derive(Debug, PartialEq, Eq)]
pub enum Effect {
    /// Send this EAP packet to the supplicant: the originated Request/Identity
    /// and relayed server challenges, Success and Failure.
    TxEapToSupplicant(Vec<u8>),
    /// Relay this EAP response to the authentication server.
    ToAuthServer {
        /// The EAP packet to encapsulate.
        eap: Vec<u8>,
    },
    /// Begin MAC Authentication Bypass for this MAC.
    StartMab {
        /// The endpoint MAC to authenticate by address.
        mac: MacAddr,
    },
    /// Program the dataplane with the new authorization for this `{port, MAC}`.
    SetAuthorization(PortAuthorization),
    /// Arm a timer.
    ArmTimer(TimerKind),
    /// Cancel a specific armed timer.
    CancelTimer(TimerKind),
    /// Cancel every armed timer for this session (used on teardown).
    CancelAllTimers,
    /// Fire a RADIUS accounting trigger.
    Accounting(AcctTrigger),
}

/// What an effect asks for.
#[verifier::ext_equal]
pub enum EffectView {
    TxEapToSupplicant(Seq<u8>),
    ToAuthServer(Seq<u8>),
    StartMab(MacAddr),
    SetAuthorization(PortAuthorizationView),
    ArmTimer(TimerKind),
    CancelTimer(TimerKind),
    CancelAllTimers,
    Accounting(AcctTrigger),
}

impl View for Effect {
    type V = EffectView;

    open spec fn view(&self) -> EffectView {
        match *self {
            Effect::TxEapToSupplicant(eap) => EffectView::TxEapToSupplicant(eap@),
            Effect::ToAuthServer { eap } => EffectView::ToAuthServer(eap@),
            Effect::StartMab { mac } => EffectView::StartMab(mac),
            Effect::SetAuthorization(a) => EffectView::SetAuthorization(a@),
            Effect::ArmTimer(k) => EffectView::ArmTimer(k),
            Effect::CancelTimer(k) => EffectView::CancelTimer(k),
            Effect::CancelAllTimers => EffectView::CancelAllTimers,
            Effect::Accounting(t) => EffectView::Accounting(t),
        }
    }
}

impl Clone for Effect {
    fn clone(&self) -> (r: Self)
        ensures
            r@ == self@,
    {
        match self {
            Effect::TxEapToSupplicant(eap) => Effect::TxEapToSupplicant(copy_octets(eap)),
            Effect::ToAuthServer { eap } => Effect::ToAuthServer { eap: copy_octets(eap) },
            Effect::StartMab { mac } => Effect::StartMab { mac: *mac },
            Effect::SetAuthorization(a) => Effect::SetAuthorization(a.clone()),
            Effect::ArmTimer(k) => Effect::ArmTimer(*k),
            Effect::CancelTimer(k) => Effect::CancelTimer(*k),
            Effect::CancelAllTimers => Effect::CancelAllTimers,
            Effect::Accounting(t) => Effect::Accounting(*t),
        }
    }
}

/// What a list of effects asks for, in order.
pub open spec fn effects(fx: Seq<Effect>) -> Seq<EffectView> {
    Seq::new(fx.len(), |i: int| fx[i]@)
}

} // verus!
